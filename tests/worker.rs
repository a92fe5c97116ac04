use workshop_fetch::queue::{Outcome, QueueState, Status};
use workshop_fetch::worker::{
    after_content_check, after_engine, after_relocation, plan_job, AfterCheck, AfterEngine, EngineReport,
};

#[test]
fn application_job_completes_in_working_dir() {
    let mut q = QueueState::new();
    q.add_item_with("j1".to_string(), "570".to_string(), "Dota 2".to_string(), 1);
    let job = q.claim_next_pending().unwrap();
    let plan = plan_job("/data/download", &job.steam_id, &job.name);
    assert_eq!(plan.temp_dir, "/data/download/570");
    assert_eq!(plan.final_dir, "/data/download/Dota 2");
    assert_eq!(plan.content_dir, None);
    assert_eq!(plan.commands[2], "app_update 570 validate");
    let step = after_engine(&plan, EngineReport::Exited(true));
    let outcome = match step {
        AfterEngine::Finish(o) => o,
        other => panic!("unexpected step {:?}", other),
    };
    assert_eq!(outcome, Outcome::Completed("/data/download/570".to_string()));
    let done = q.finalize(&job.id, outcome).unwrap();
    assert_eq!(done.status, Status::Completed);
    assert_eq!(done.install_path, Some("/data/download/570".to_string()));
}

#[test]
fn workshop_job_relocates_to_sanitized_dir() {
    let mut q = QueueState::new();
    q.add_item_with("j2".to_string(), "4000:123456".to_string(), "Cool: Mod!".to_string(), 1);
    let job = q.claim_next_pending().unwrap();
    let plan = plan_job("/dl", &job.steam_id, &job.name);
    assert_eq!(plan.temp_dir, "/dl/123456");
    assert_eq!(plan.final_dir, "/dl/Cool_ Mod_");
    assert_eq!(plan.commands[2], "workshop_download_item 4000 123456");
    let content = "/dl/123456/steamapps/workshop/content/4000/123456".to_string();
    assert_eq!(after_engine(&plan, EngineReport::Exited(true)), AfterEngine::CheckContent(content.clone()));
    assert_eq!(
        after_content_check(&plan, true),
        AfterCheck::Relocate { from: content, to: "/dl/Cool_ Mod_".to_string() }
    );
    let outcome = after_relocation(&plan, Ok(()));
    assert_eq!(outcome, Outcome::Completed("/dl/Cool_ Mod_".to_string()));
    let done = q.finalize(&job.id, outcome).unwrap();
    assert_eq!(done.install_path, Some("/dl/Cool_ Mod_".to_string()));
}

#[test]
fn workshop_job_without_payload_completes_in_working_dir() {
    let plan = plan_job("/dl", "4000:77", "x");
    assert_eq!(
        after_content_check(&plan, false),
        AfterCheck::Finish(Outcome::Completed("/dl/77".to_string()))
    );
}

#[test]
fn engine_failures_fail_the_job() {
    let plan = plan_job("/dl", "570", "x");
    assert_eq!(
        after_engine(&plan, EngineReport::Exited(false)),
        AfterEngine::Finish(Outcome::Failed("Download failed".to_string()))
    );
    assert_eq!(
        after_engine(&plan, EngineReport::Crashed),
        AfterEngine::Finish(Outcome::Failed("Process crashed".to_string()))
    );
    assert_eq!(
        after_engine(&plan, EngineReport::NotStarted("missing engine".to_string())),
        AfterEngine::Finish(Outcome::Failed("missing engine".to_string()))
    );
}

#[test]
fn relocation_error_fails_the_job() {
    let plan = plan_job("/dl", "4000:1", "x");
    assert_eq!(
        after_relocation(&plan, Err("cross-device".to_string())),
        Outcome::Failed("cross-device".to_string())
    );
}
