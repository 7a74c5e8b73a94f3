use snap_launch::i18n::{strings, Language};
use snap_launch::registry::{
    exe_path_from_icon, install_layout, recovery_bat_content, sanitize_key, RegData, RegEntry,
    DESKTOP_ROOT, DIRECTORY_ROOT, RECOVERY_BAT_NAME, SEPARATOR_BEFORE,
};
use snap_launch::tools::{Tool, ToolsConfig};

fn text(e: &RegEntry) -> (String, String, String) {
    match &e.data {
        RegData::Text(t) => (e.key.clone(), e.name.clone(), t.clone()),
        RegData::Dword(d) => (e.key.clone(), e.name.clone(), format!("dword:{}", d)),
    }
}

fn tool(id: &str, name: &str, path: &str, icon: &str, order: u32) -> Tool {
    Tool {
        id: id.to_string(),
        name: name.to_string(),
        path: path.to_string(),
        args: String::new(),
        icon_path: icon.to_string(),
        order,
    }
}

#[test]
fn roots_and_names() {
    assert_eq!(DESKTOP_ROOT, "Software\\Classes\\DesktopBackground\\Shell\\SnapLaunch");
    assert_eq!(DIRECTORY_ROOT, "Software\\Classes\\Directory\\Background\\Shell\\SnapLaunch");
    assert_eq!(RECOVERY_BAT_NAME, "SnapLaunch_복구.bat");
    assert_eq!(SEPARATOR_BEFORE, 0x20);
}

#[test]
fn sanitize_key_keeps_safe_characters() {
    assert_eq!(sanitize_key("tool_001"), "tool_001");
    assert_eq!(sanitize_key("my tool/1.x-2"), "my_tool_1_x-2");
    assert_eq!(sanitize_key("툴"), "_");
}

#[test]
fn layout_for_empty_list() {
    let c = ToolsConfig { language: Language::English, tools: vec![] };
    let l = install_layout("C:\\Tools\\snap-launch.exe", &c);
    assert_eq!(l.len(), 18);
    let e: Vec<_> = l.iter().map(text).collect();
    assert_eq!(e[0], (DESKTOP_ROOT.to_string(), "MUIVerb".to_string(), "Favorite Tools".to_string()));
    assert_eq!(e[1], (DESKTOP_ROOT.to_string(), "SubCommands".to_string(), String::new()));
    assert_eq!(e[2], (DESKTOP_ROOT.to_string(), "Icon".to_string(), "C:\\Tools\\snap-launch.exe,0".to_string()));
    let manage = format!("{}\\shell\\zzz_manage", DESKTOP_ROOT);
    assert_eq!(e[3], (manage.clone(), "MUIVerb".to_string(), "Add / Manage Tools...".to_string()));
    assert_eq!(e[4], (manage.clone(), "Icon".to_string(), "C:\\Tools\\snap-launch.exe,0".to_string()));
    assert_eq!(e[5], (manage.clone(), "CommandFlags".to_string(), "dword:32".to_string()));
    assert_eq!(
        e[6],
        (format!("{}\\command", manage), String::new(), "\"C:\\Tools\\snap-launch.exe\" launch-manage".to_string())
    );
    let un = format!("{}\\shell\\zzz_uninstall", DESKTOP_ROOT);
    assert_eq!(e[7], (un.clone(), "MUIVerb".to_string(), "Uninstall".to_string()));
    assert_eq!(
        e[8],
        (format!("{}\\command", un), String::new(), "\"C:\\Tools\\snap-launch.exe\" uninstall".to_string())
    );
    assert_eq!(e[9].0, DIRECTORY_ROOT);
    assert_eq!(e[9..].to_vec().len(), 9);
}

#[test]
fn layout_lists_tools_in_order() {
    let c = ToolsConfig {
        language: Language::Korean,
        tools: vec![
            tool("tool_002", "계산기", "calc.exe", "", 2),
            tool("tool_001", "Notepad++", "C:\\npp\\notepad++.exe", "C:\\icons\\n.ico", 1),
        ],
    };
    let l = install_layout("C:\\S\\snap.exe", &c);
    assert_eq!(l.len(), 2 * (3 + 3 * 2 + 6));
    let e: Vec<_> = l.iter().map(text).collect();
    assert_eq!(e[0].2, "자주사용하는 툴");
    let k1 = format!("{}\\shell\\aaa_001_tool_001", DESKTOP_ROOT);
    assert_eq!(e[3], (k1.clone(), "MUIVerb".to_string(), "Notepad++".to_string()));
    assert_eq!(e[4], (k1.clone(), "Icon".to_string(), "C:\\icons\\n.ico".to_string()));
    assert_eq!(e[5], (format!("{}\\command", k1), String::new(), "\"C:\\S\\snap.exe\" launch tool_001".to_string()));
    let k2 = format!("{}\\shell\\aaa_002_tool_002", DESKTOP_ROOT);
    assert_eq!(e[6], (k2.clone(), "MUIVerb".to_string(), "계산기".to_string()));
    assert_eq!(e[7], (k2.clone(), "Icon".to_string(), "calc.exe,0".to_string()));
    assert_eq!(e[8], (format!("{}\\command", k2), String::new(), "\"C:\\S\\snap.exe\" launch tool_002".to_string()));
    assert_eq!(e[9].2, "툴 추가/관리...");
    assert_eq!(e[15].0, DIRECTORY_ROOT);
    assert_eq!(e[18].0, format!("{}\\shell\\aaa_001_tool_001", DIRECTORY_ROOT));
}

#[test]
fn icon_path_read_back() {
    assert_eq!(exe_path_from_icon("C:\\Tools\\snap-launch.exe,0"), Some("C:\\Tools\\snap-launch.exe".to_string()));
    assert_eq!(exe_path_from_icon("  C:\\a.exe  ,0"), Some("C:\\a.exe".to_string()));
    assert_eq!(exe_path_from_icon(" ,0"), None);
    assert_eq!(exe_path_from_icon(""), None);
    assert_eq!(exe_path_from_icon("C:\\x.exe"), Some("C:\\x.exe".to_string()));
}

#[test]
fn icon_round_trip_law() {
    // What installing writes as the root's Icon value reads back as the executable path.
    let exe = "D:\\Portable\\snap-launch.exe";
    let c = ToolsConfig { language: Language::Korean, tools: vec![] };
    let l = install_layout(exe, &c);
    let icon = match &l[2].data {
        RegData::Text(t) => t.clone(),
        RegData::Dword(_) => panic!("Icon is a string"),
    };
    assert_eq!(exe_path_from_icon(&icon), Some(exe.to_string()));
}

#[test]
fn recovery_bat_in_each_language() {
    let ko = recovery_bat_content(&strings(Language::Korean));
    assert_eq!(
        ko,
        "@echo off\r\nchcp 65001 >nul 2>&1\r\necho SnapLaunch 컨텍스트 메뉴를 강제 제거합니다...\r\nreg delete \"HKCU\\Software\\Classes\\DesktopBackground\\Shell\\SnapLaunch\" /f >nul 2>&1\r\nreg delete \"HKCU\\Software\\Classes\\Directory\\Background\\Shell\\SnapLaunch\" /f >nul 2>&1\r\necho.\r\necho 완료되었습니다. 탐색기를 재시작하면 메뉴가 사라집니다.\r\npause\r\n"
    );
    let en = recovery_bat_content(&strings(Language::English));
    assert!(en.contains("echo Forcibly removing the SnapLaunch context menu..."));
    assert!(en.ends_with("echo Done. Restart Explorer to refresh the menus.\r\npause\r\n"));
}

#[test]
fn menu_keys_sort_in_list_order_law() {
    // Tool keys sort (as the shell sorts key names) in menu order, before the
    // management and uninstall items.
    let tools: Vec<Tool> = (1..=12u32)
        .rev()
        .map(|n| tool(&format!("id {}", n), &format!("t{}", n), "x.exe", "", n))
        .collect();
    let c = ToolsConfig { language: Language::English, tools };
    let l = install_layout("C:\\s.exe", &c);
    let prefix = format!("{}\\shell\\", DESKTOP_ROOT);
    let mut keys: Vec<String> = Vec::new();
    for e in &l {
        if e.key.starts_with(DESKTOP_ROOT) && e.name == "MUIVerb" && e.key.starts_with(&prefix) {
            keys.push(e.key[prefix.len()..].to_string());
        }
    }
    assert_eq!(keys.len(), 14);
    assert_eq!(keys[0], "aaa_001_id_1");
    assert_eq!(keys[11], "aaa_012_id_12");
    assert_eq!(keys[12], "zzz_manage");
    assert_eq!(keys[13], "zzz_uninstall");
    let mut sorted = keys.clone();
    sorted.sort();
    assert_eq!(sorted, keys);
}
