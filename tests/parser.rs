use workshop_fetch::parser::parse_workshop_html;

#[test]
fn parses_attribute_appid_and_title() {
    let html = "<div data-appid=\"294100\"></div><div class=\"workshopItemTitle\">  Great Mod \n</div>";
    let m = parse_workshop_html(html, "555").unwrap();
    assert_eq!(m.app_id, "294100");
    assert_eq!(m.title, "Great Mod");
    assert_eq!(m.file_id, "555");
}

#[test]
fn falls_back_to_app_path() {
    let html = "<a href=\"https://store/app/4000/x\">g</a><div class=\"workshopItemTitle\" id=\"t\">T</div>";
    let m = parse_workshop_html(html, "1").unwrap();
    assert_eq!(m.app_id, "4000");
    assert_eq!(m.title, "T");
}

#[test]
fn unclosed_attribute_falls_back_to_path() {
    let html = "/app/77 <div class=\"workshopItemTitle\">X</div> data-appid=\"12";
    assert_eq!(parse_workshop_html(html, "1").unwrap().app_id, "77");
}

#[test]
fn missing_appid_is_error() {
    let html = "<a href=\"/app/x\"></a><div class=\"workshopItemTitle\">T</div>";
    assert_eq!(parse_workshop_html(html, "1").unwrap_err(), "Failed to extract AppID");
}

#[test]
fn missing_title_is_error() {
    let html = "<div data-appid=\"5\"></div><div class=\"workshopItemTitle\">unclosed";
    assert_eq!(parse_workshop_html(html, "1").unwrap_err(), "Failed to extract Title");
}

#[test]
fn non_ascii_title_survives() {
    let html = "<i data-appid=\"9\"><div class=\"workshopItemTitle\">\u{3000}Ünïcødé 模组\u{a0}</div>";
    assert_eq!(parse_workshop_html(html, "1").unwrap().title, "Ünïcødé 模组");
}
