use snap_launch::app_state::{
    build_window_title, launchable_extension, truncate_middle, AppState, DroppedFile,
    EditingBuffer, ToolFormState,
};
use snap_launch::i18n::{strings, Language};
use snap_launch::tools::{Tool, ToolsConfig};

fn tool(id: &str, name: &str, order: u32) -> Tool {
    Tool {
        id: id.into(),
        name: name.into(),
        path: format!("C:\\{}.exe", name),
        args: String::new(),
        icon_path: String::new(),
        order,
    }
}

fn state(lang: Language, tools: Vec<Tool>) -> AppState {
    AppState::new(ToolsConfig { language: lang, tools }, Some("C:\\Tools\\snap.exe".into()))
}

fn ids(s: &AppState) -> Vec<String> {
    s.config.tools.iter().map(|t| t.id.clone()).collect()
}

fn dropped(path: &str, ext: &str, stem: &str) -> DroppedFile {
    DroppedFile { path: path.into(), extension: ext.into(), stem: stem.into() }
}

#[test]
fn new_state() {
    let s = state(Language::Korean, vec![]);
    assert!(!s.installed);
    assert!(!s.dirty_since_last_install);
    assert!(s.dirty_tool_ids.is_empty());
    assert!(s.editing.is_none() && s.selected_id.is_none() && s.pending_delete_id.is_none());
    assert_eq!(s.current_exe_path.as_deref(), Some("C:\\Tools\\snap.exe"));
    assert!(s.registered_exe_path.is_none());
    assert_eq!(s.form.name, "");
}

#[test]
fn form_clear() {
    let mut f = ToolFormState { name: "a".into(), path: "b".into(), args: "c".into() };
    f.clear();
    assert_eq!((f.name.as_str(), f.path.as_str(), f.args.as_str()), ("", "", ""));
    let d = ToolFormState::default();
    assert_eq!(d.path, "");
}

#[test]
fn refresh_install_state_records_registry() {
    let mut s = state(Language::Korean, vec![]);
    s.refresh_install_state(true, Some("C:\\Old\\snap.exe".into()));
    assert!(s.installed);
    assert_eq!(s.registered_exe_path.as_deref(), Some("C:\\Old\\snap.exe"));
}

#[test]
fn s_follows_language() {
    let mut s = state(Language::English, vec![]);
    assert_eq!(s.s().btn_add, "➕ Add");
    assert!(s.set_language(Language::Korean));
    assert_eq!(s.s().btn_add, "➕ 추가");
    assert!(!s.set_language(Language::Korean));
    assert!(!s.dirty_since_last_install);
}

#[test]
fn mark_and_clear_dirty() {
    let mut s = state(Language::Korean, vec![]);
    s.mark_dirty(&["tool_001", "tool_002", "tool_001"]);
    assert!(s.dirty_since_last_install);
    assert!(s.is_dirty("tool_001") && s.is_dirty("tool_002"));
    assert!(!s.is_dirty("tool_003"));
    assert_eq!(s.dirty_tool_ids.len(), 2);
    s.mark_dirty(&[]);
    assert_eq!(s.dirty_tool_ids.len(), 2);
    s.clear_dirty_marks();
    assert!(!s.dirty_since_last_install);
    assert!(!s.is_dirty("tool_001"));
    assert!(s.dirty_tool_ids.is_empty());
}

#[test]
fn install_succeeded_clears_marks() {
    let mut s = state(Language::Korean, vec![]);
    s.mark_dirty(&["tool_001"]);
    s.install_succeeded(true, Some("C:\\Tools\\snap.exe".into()));
    assert!(s.installed);
    assert!(!s.dirty_since_last_install);
    assert!(s.dirty_tool_ids.is_empty());
}

#[test]
fn add_from_form_trims_and_marks() {
    let mut s = state(Language::Korean, vec![tool("tool_001", "a", 1)]);
    s.form = ToolFormState { name: "  VS Code ".into(), path: " C:\\code.exe ".into(), args: " -n ".into() };
    assert!(s.can_add());
    let id = s.add_from_form().unwrap();
    assert_eq!(id, "tool_002");
    let t = &s.config.tools[1];
    assert_eq!((t.name.as_str(), t.path.as_str(), t.args.as_str()), ("VS Code", "C:\\code.exe", "-n"));
    assert_eq!(t.order, 2);
    assert_eq!(s.form.name, "");
    assert!(s.is_dirty("tool_002"));
    assert!(s.dirty_since_last_install);
}

#[test]
fn add_from_form_needs_name_and_path() {
    let mut s = state(Language::Korean, vec![]);
    s.form = ToolFormState { name: "   ".into(), path: "C:\\x.exe".into(), args: String::new() };
    assert!(!s.can_add());
    assert!(s.add_from_form().is_none());
    assert!(s.config.tools.is_empty());
    assert_eq!(s.form.path, "C:\\x.exe");
    assert!(!s.dirty_since_last_install);
}

#[test]
fn edit_cycle() {
    let mut s = state(Language::Korean, vec![tool("tool_001", "a", 1), tool("tool_002", "b", 2)]);
    s.start_edit("tool_002");
    assert_eq!(s.selected_id.as_deref(), Some("tool_002"));
    {
        let b: &mut EditingBuffer = s.editing.as_mut().unwrap();
        assert_eq!(b.name, "b");
        b.name = "  bee  ".into();
        b.args = " --x ".into();
    }
    s.save_edit("tool_002");
    assert!(s.editing.is_none());
    assert_eq!(s.config.tools[1].name, "bee");
    assert_eq!(s.config.tools[1].args, "--x");
    assert_eq!(s.config.tools[1].path, "C:\\b.exe");
    assert!(s.is_dirty("tool_002"));
    s.start_edit("tool_001");
    s.cancel_edit();
    assert!(s.editing.is_none());
    assert_eq!(s.config.tools[0].name, "a");
    s.start_edit("missing");
    assert!(s.editing.is_none());
}

#[test]
fn delete_flow() {
    let mut s = state(Language::English, vec![tool("tool_001", "a", 1), tool("tool_002", "b", 2)]);
    s.select("tool_001");
    s.mark_dirty(&["tool_001"]);
    s.request_delete("tool_001");
    let (id, prompt) = s.take_pending_delete().unwrap();
    assert_eq!(id, "tool_001");
    assert_eq!(prompt, "Really delete the tool \"a\"?");
    assert!(s.pending_delete_id.is_none());
    assert!(s.take_pending_delete().is_none());
    s.confirm_delete(&id);
    assert_eq!(ids(&s), vec!["tool_002"]);
    assert_eq!(s.config.tools[0].order, 1);
    assert!(s.selected_id.is_none());
    assert!(!s.is_dirty("tool_001"));
    assert!(s.dirty_since_last_install);
}

#[test]
fn delete_prompt_for_unknown_id_uses_id() {
    let mut s = state(Language::Korean, vec![]);
    s.request_delete("tool_404");
    let (_, prompt) = s.take_pending_delete().unwrap();
    assert_eq!(prompt, "정말 \"tool_404\" 툴을 삭제하시겠습니까?");
}

#[test]
fn move_selected_up_and_down() {
    let mut s = state(Language::Korean, vec![tool("tool_001", "a", 1), tool("tool_002", "b", 2), tool("tool_003", "c", 3)]);
    assert!(!s.move_selected(true));
    s.select("tool_002");
    assert!(s.move_selected(true));
    assert_eq!(ids(&s), vec!["tool_002", "tool_001", "tool_003"]);
    assert!(s.is_dirty("tool_001") && s.is_dirty("tool_002") && !s.is_dirty("tool_003"));
    assert!(!s.move_selected(true));
    assert!(s.move_selected(false));
    assert!(s.move_selected(false));
    assert_eq!(ids(&s), vec!["tool_001", "tool_003", "tool_002"]);
    assert!(!s.move_selected(false));
    let orders: Vec<u32> = s.config.tools.iter().map(|t| t.order).collect();
    assert_eq!(orders, vec![1, 2, 3]);
}

#[test]
fn dropped_files_fill_form() {
    let mut s = state(Language::Korean, vec![]);
    let files = vec![
        dropped("C:\\a\\readme.txt", "txt", "readme"),
        dropped("C:\\a\\First.EXE", "EXE", "First"),
        dropped("C:\\a\\second.lnk", "lnk", "second"),
    ];
    assert!(s.apply_dropped_files(&files));
    assert_eq!(s.form.path, "C:\\a\\second.lnk");
    assert_eq!(s.form.name, "second");
    let more = vec![dropped("D:\\run.cmd", "cmd", "run")];
    assert!(!s.apply_dropped_files(&more));
    assert_eq!(s.form.path, "D:\\run.cmd");
    assert_eq!(s.form.name, "second");
    let none = vec![dropped("D:\\x.png", "png", "x")];
    assert!(s.apply_dropped_files(&none));
    assert_eq!(s.form.path, "D:\\run.cmd");
    assert!(launchable_extension("Bat"));
    assert!(!launchable_extension("exe "));
}

#[test]
fn path_mismatch_warning_cases() {
    let mut s = state(Language::English, vec![]);
    assert!(s.path_mismatch_warning().is_none());
    s.refresh_install_state(true, Some("c:/tools/SNAP.exe".into()));
    assert!(s.path_mismatch_warning().is_none());
    s.refresh_install_state(true, Some("D:\\Old\\snap.exe".into()));
    assert_eq!(
        s.path_mismatch_warning().unwrap(),
        "⚠ The registered EXE path differs from the current location.\n  Registered: D:\\Old\\snap.exe\n  Current   : C:\\Tools\\snap.exe\n  Click \"Refresh Menu\" to re-register."
    );
}

#[test]
fn status_and_labels() {
    let mut s = state(Language::English, vec![tool("tool_001", "Calc", 1)]);
    assert_eq!(s.status_text(), strings(Language::English).status_not_installed);
    s.refresh_install_state(true, None);
    assert_eq!(s.status_text(), "✅ The context menu is installed.");
    assert_eq!(s.refresh_label(), "🔄 Refresh Menu");
    s.mark_dirty(&[]);
    assert_eq!(s.refresh_label(), "🔄 Refresh Menu (changed)");
    assert!(s.selected_label().is_none());
    s.select("tool_001");
    assert_eq!(s.selected_label().unwrap(), "Selected: Calc");
    s.select("gone");
    assert!(s.selected_label().is_none());
}

#[test]
fn window_title() {
    let s = strings(Language::English);
    assert_eq!(
        build_window_title(&s, "1.0.0"),
        "🔧 SnapLaunch — Favorite Tools  ·  v1.0.0  ·  Joseph.han · coding-now.com"
    );
}

#[test]
fn truncate_middle_cases() {
    assert_eq!(truncate_middle("short", 20), "short");
    let long = "C:\\Program Files\\Very Long Folder Name\\Another Level\\program.exe";
    let t = truncate_middle(long, 20);
    assert_eq!(t.chars().count(), 20);
    assert_eq!(t, "C:\\Progra...gram.exe");
    assert_eq!(truncate_middle("abcdef", 3), "...");
    assert_eq!(truncate_middle("가나다라마바사", 5), "가...사");
}

#[test]
fn marks_stay_distinct() {
    let mut s = state(Language::Korean, vec![tool("tool_001", "a", 1), tool("tool_002", "b", 2)]);
    s.mark_dirty(&["tool_002", "tool_002"]);
    s.select("tool_002");
    assert!(s.move_selected(true));
    s.mark_dirty(&["tool_001", "tool_002"]);
    let mut ids = s.dirty_tool_ids.clone();
    ids.sort();
    ids.dedup();
    assert_eq!(ids.len(), s.dirty_tool_ids.len());
    assert_eq!(s.dirty_tool_ids.len(), 2);
}

#[test]
fn dropped_file_from_name() {
    let f = DroppedFile::new("C:\\Tools\\Setup.Tool.EXE".to_string(), "Setup.Tool.EXE");
    assert_eq!(f.path, "C:\\Tools\\Setup.Tool.EXE");
    assert_eq!(f.stem, "Setup.Tool");
    assert_eq!(f.extension, "EXE");
    let g = DroppedFile::new("C:\\Tools\\.profile".to_string(), ".profile");
    assert_eq!(g.stem, ".profile");
    assert_eq!(g.extension, "");
    let mut s = state(Language::English, vec![]);
    assert!(!s.apply_dropped_files(&vec![f]));
    assert_eq!(s.form.name, "Setup.Tool");
    assert!(s.apply_dropped_files(&vec![g]));
}
