use snap_launch::i18n::Language;
use snap_launch::tools::{Tool, ToolsConfig, CONFIG_FILE_NAME};

fn tool(id: &str, name: &str, order: u32) -> Tool {
    Tool {
        id: id.to_string(),
        name: name.to_string(),
        path: format!("C:\\{}.exe", name),
        args: String::new(),
        icon_path: String::new(),
        order,
    }
}

fn ids(c: &ToolsConfig) -> Vec<String> {
    c.tools.iter().map(|t| t.id.clone()).collect()
}

fn orders(c: &ToolsConfig) -> Vec<u32> {
    c.tools.iter().map(|t| t.order).collect()
}

#[test]
fn config_file_name() {
    assert_eq!(CONFIG_FILE_NAME, "snap-launch-tools.json");
}

#[test]
fn default_config_is_empty_korean() {
    let c = ToolsConfig::default();
    assert_eq!(c.language, Language::Korean);
    assert!(c.tools.is_empty());
}

#[test]
fn add_tool_assigns_ids_and_orders() {
    let mut c = ToolsConfig::default();
    let t = c.add_tool("Notepad++".to_string(), "C:\\npp.exe".to_string(), "-n".to_string());
    assert_eq!(t.id, "tool_001");
    assert_eq!(t.order, 1);
    assert_eq!(t.icon_path, "");
    assert_eq!(t.args, "-n");
    let t2 = c.add_tool("Calc".to_string(), "calc.exe".to_string(), String::new());
    assert_eq!(t2.id, "tool_002");
    assert_eq!(t2.order, 2);
    assert_eq!(ids(&c), vec!["tool_001", "tool_002"]);
}

#[test]
fn add_tool_reuses_least_free_id_and_follows_max_order() {
    let mut c = ToolsConfig {
        language: Language::English,
        tools: vec![tool("tool_002", "b", 7), tool("tool_001", "a", 3)],
    };
    let t = c.add_tool("c".to_string(), "c.exe".to_string(), String::new());
    assert_eq!(t.id, "tool_003");
    assert_eq!(t.order, 8);
    let mut c = ToolsConfig {
        language: Language::English,
        tools: vec![tool("tool_002", "b", 1), tool("custom", "a", 2)],
    };
    let t = c.add_tool("c".to_string(), "c.exe".to_string(), String::new());
    assert_eq!(t.id, "tool_001");
    assert_eq!(c.language, Language::English);
}

#[test]
fn next_id_law_fresh() {
    // The id given to a new tool is not used by any existing tool.
    let mut c = ToolsConfig {
        language: Language::Korean,
        tools: vec![tool("tool_001", "a", 1), tool("tool_003", "c", 2), tool("tool_002", "b", 3)],
    };
    let before = ids(&c);
    let id = c.add_tool("d".into(), "d.exe".into(), String::new()).id.clone();
    assert_eq!(id, "tool_004");
    assert!(!before.contains(&id));
}

#[test]
fn remove_tool_renumbers() {
    let mut c = ToolsConfig {
        language: Language::Korean,
        tools: vec![tool("tool_001", "a", 1), tool("tool_002", "b", 2), tool("tool_003", "c", 3)],
    };
    c.remove_tool("tool_002");
    assert_eq!(ids(&c), vec!["tool_001", "tool_003"]);
    assert_eq!(orders(&c), vec![1, 2]);
    assert!(c.find("tool_002").is_none());
    c.remove_tool("missing");
    assert_eq!(ids(&c), vec!["tool_001", "tool_003"]);
}

#[test]
fn remove_tool_removes_every_copy() {
    let mut c = ToolsConfig {
        language: Language::Korean,
        tools: vec![tool("x", "a", 5), tool("y", "b", 9), tool("x", "c", 11)],
    };
    c.remove_tool("x");
    assert_eq!(ids(&c), vec!["y"]);
    assert_eq!(orders(&c), vec![1]);
}

#[test]
fn swap_exchanges_and_renumbers() {
    let mut c = ToolsConfig {
        language: Language::Korean,
        tools: vec![tool("tool_001", "a", 1), tool("tool_002", "b", 2), tool("tool_003", "c", 3)],
    };
    c.swap(0, 2);
    assert_eq!(ids(&c), vec!["tool_003", "tool_002", "tool_001"]);
    assert_eq!(orders(&c), vec![1, 2, 3]);
    c.swap(0, 2);
    assert_eq!(ids(&c), vec!["tool_001", "tool_002", "tool_003"]);
}

#[test]
fn swap_out_of_range_or_same_index_does_nothing() {
    let mut c = ToolsConfig {
        language: Language::Korean,
        tools: vec![tool("tool_001", "a", 5), tool("tool_002", "b", 9)],
    };
    c.swap(0, 2);
    c.swap(1, 1);
    assert_eq!(ids(&c), vec!["tool_001", "tool_002"]);
    assert_eq!(orders(&c), vec![5, 9]);
}

#[test]
fn find_gives_first_match() {
    let mut c = ToolsConfig {
        language: Language::Korean,
        tools: vec![tool("x", "first", 1), tool("x", "second", 2)],
    };
    assert_eq!(c.find("x").unwrap().name, "first");
    assert!(c.find("y").is_none());
    assert_eq!(c.index_of("x"), Some(0));
    assert!(c.contains_id("x"));
    assert!(!c.contains_id("y"));
    if let Some(t) = c.find_mut("x") {
        t.name = "renamed".to_string();
    }
    assert_eq!(c.tools[0].name, "renamed");
    assert_eq!(c.tools[1].name, "second");
    assert!(c.find_mut("nope").is_none());
}

#[test]
fn sort_by_order_is_stable() {
    let mut c = ToolsConfig {
        language: Language::Korean,
        tools: vec![tool("a", "a", 3), tool("b", "b", 1), tool("c", "c", 3), tool("d", "d", 2), tool("e", "e", 1)],
    };
    c.sort_by_order();
    assert_eq!(ids(&c), vec!["b", "e", "d", "a", "c"]);
    assert_eq!(orders(&c), vec![1, 1, 2, 3, 3]);
    // sorting a sorted list leaves it unchanged
    let before = ids(&c);
    c.sort_by_order();
    assert_eq!(ids(&c), before);
}

#[test]
fn loaded_sorts_or_defaults() {
    let parsed = ToolsConfig {
        language: Language::English,
        tools: vec![tool("tool_002", "b", 2), tool("tool_001", "a", 1)],
    };
    let c = ToolsConfig::loaded(Some(parsed));
    assert_eq!(c.language, Language::English);
    assert_eq!(ids(&c), vec!["tool_001", "tool_002"]);
    let d = ToolsConfig::loaded(None);
    assert_eq!(d.language, Language::Korean);
    assert!(d.tools.is_empty());
}

#[test]
fn duplicate_copies_everything() {
    let c = ToolsConfig { language: Language::English, tools: vec![tool("x", "a", 4)] };
    let d = c.duplicate();
    assert_eq!(d.language, Language::English);
    assert_eq!(d.tools[0].id, "x");
    assert_eq!(d.tools[0].order, 4);
    let t = d.tools[0].duplicate();
    assert_eq!(t.path, "C:\\a.exe");
}

#[test]
fn ids_stay_unique_when_adding() {
    let mut c = ToolsConfig::default();
    for i in 0..5 {
        c.add_tool(format!("t{}", i), "x.exe".into(), String::new());
    }
    c.remove_tool("tool_002");
    c.remove_tool("tool_004");
    c.add_tool("again".into(), "y.exe".into(), String::new());
    c.add_tool("again2".into(), "z.exe".into(), String::new());
    let mut v = ids(&c);
    assert_eq!(v, vec!["tool_001", "tool_003", "tool_005", "tool_002", "tool_004"]);
    v.sort();
    v.dedup();
    assert_eq!(v.len(), 5);
    assert_eq!(c.find("tool_004").unwrap().name, "again2");
}
