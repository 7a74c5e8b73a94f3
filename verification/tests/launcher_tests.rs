use snap_launch::i18n::{strings, Language};
use snap_launch::launcher::{
    offer_cleanup_failed, offer_cleanup_missing, plan_launch, start_failure_text, CleanupAction,
    CleanupEvent, CleanupFlow, CleanupStage, LaunchPlan, UNKNOWN_TOOL_NAME,
};
use snap_launch::tools::{Tool, ToolsConfig};

fn config() -> ToolsConfig {
    ToolsConfig {
        language: Language::Korean,
        tools: vec![Tool {
            id: "tool_001".into(),
            name: "Notepad++".into(),
            path: "C:\\npp\\notepad++.exe".into(),
            args: "  -multiInst   -nosession ".into(),
            icon_path: String::new(),
            order: 1,
        }],
    }
}

#[test]
fn plan_launch_found() {
    match plan_launch(&config(), "tool_001") {
        LaunchPlan::Run { name, program, args } => {
            assert_eq!(name, "Notepad++");
            assert_eq!(program, "C:\\npp\\notepad++.exe");
            assert_eq!(args, vec!["-multiInst", "-nosession"]);
        }
        LaunchPlan::Missing => panic!("the tool exists"),
    }
}

#[test]
fn plan_launch_blank_args() {
    let mut c = config();
    c.tools[0].args = "   ".into();
    match plan_launch(&c, "tool_001") {
        LaunchPlan::Run { args, .. } => assert!(args.is_empty()),
        LaunchPlan::Missing => panic!("the tool exists"),
    }
}

#[test]
fn plan_launch_missing() {
    assert!(matches!(plan_launch(&config(), "tool_009"), LaunchPlan::Missing));
}

#[test]
fn failure_prompts() {
    let s = strings(Language::English);
    assert_eq!(start_failure_text(&s, "C:\\x.exe", "not found"), "Path: C:\\x.exe\nReason: not found");
    let (flow, prompt) = offer_cleanup_failed(&s, "tool_001", "X", "C:\\x.exe", "not found");
    assert_eq!(flow.tool_id, "tool_001");
    assert_eq!(flow.stage, CleanupStage::AwaitingAnswer);
    assert_eq!(
        prompt,
        "Failed to launch \"X\".\n\nPath: C:\\x.exe\nReason: not found\n\nRemove this entry from the context menu?"
    );
    let (_, prompt) = offer_cleanup_missing(&strings(Language::Korean), "tool_009");
    assert_eq!(
        prompt,
        format!(
            "\"{}\" 실행에 실패했습니다.\n\n이 항목이 설정 파일에 더 이상 존재하지 않습니다.\n\n이 항목을 컨텍스트 메뉴에서 제거하시겠습니까?",
            UNKNOWN_TOOL_NAME
        )
    );
}

#[test]
fn cleanup_declined() {
    let s = strings(Language::English);
    let (mut flow, _) = CleanupFlow::start(&s, "tool_001", "X", "d");
    assert!(matches!(flow.step(&s, CleanupEvent::Answered(false)), CleanupAction::Stop));
    assert_eq!(flow.stage, CleanupStage::Finished);
}

#[test]
fn cleanup_full_success() {
    let s = strings(Language::English);
    let (mut flow, _) = CleanupFlow::start(&s, "tool_001", "X", "d");
    match flow.step(&s, CleanupEvent::Answered(true)) {
        CleanupAction::RemoveAndSave(id) => assert_eq!(id, "tool_001"),
        _ => panic!("expected removal"),
    }
    assert!(matches!(flow.step(&s, CleanupEvent::Saved(None)), CleanupAction::Reinstall));
    match flow.step(&s, CleanupEvent::Installed(None)) {
        CleanupAction::Inform(m) => assert_eq!(m, "The entry was removed from the context menu."),
        _ => panic!("expected information"),
    }
    assert_eq!(flow.stage, CleanupStage::Finished);
}

#[test]
fn cleanup_save_fails() {
    let s = strings(Language::English);
    let (mut flow, _) = CleanupFlow::start(&s, "tool_001", "X", "d");
    flow.step(&s, CleanupEvent::Answered(true));
    match flow.step(&s, CleanupEvent::Saved(Some("disk full".into()))) {
        CleanupAction::ReportError(m) => assert_eq!(m, "Failed to save the config file.\n\ndisk full"),
        _ => panic!("expected an error"),
    }
    assert_eq!(flow.stage, CleanupStage::Finished);
}

#[test]
fn cleanup_reinstall_fails() {
    let s = strings(Language::Korean);
    let (mut flow, _) = CleanupFlow::start(&s, "tool_001", "X", "d");
    flow.step(&s, CleanupEvent::Answered(true));
    flow.step(&s, CleanupEvent::Saved(None));
    match flow.step(&s, CleanupEvent::Installed(Some("denied".into()))) {
        CleanupAction::ReportError(m) => {
            assert!(m.starts_with("항목은 설정에서 제거되었으나"));
            assert!(m.ends_with("\n\ndenied"));
        }
        _ => panic!("expected an error"),
    }
}

#[test]
fn cleanup_out_of_order_event_stops() {
    let s = strings(Language::English);
    let (mut flow, _) = CleanupFlow::start(&s, "tool_001", "X", "d");
    assert!(matches!(flow.step(&s, CleanupEvent::Saved(None)), CleanupAction::Stop));
    assert_eq!(flow.stage, CleanupStage::Finished);
    assert!(matches!(flow.step(&s, CleanupEvent::Answered(true)), CleanupAction::Stop));
}
