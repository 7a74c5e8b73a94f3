use snap_launch::paths::{
    classify_tool_path, paths_equal, search_candidates, split_file_name, split_pieces, ToolPathCheck,
};
use snap_launch::text::{
    blank, chars_of, concatenate, has_char, prefix_before, replace_all, replace_char, same_text,
    split_whitespace, string_from_chars, to_ascii_lowercase, to_wide, trim, zero_pad,
};

#[test]
fn trim_removes_surrounding_whitespace() {
    assert_eq!(trim("  notepad.exe \t\n"), "notepad.exe");
    assert_eq!(trim("a b"), "a b");
    assert_eq!(trim("   "), "");
    assert_eq!(trim(""), "");
    assert_eq!(trim("\u{3000}계산기\u{3000}"), "계산기");
}

#[test]
fn blank_detects_whitespace_only() {
    assert!(blank(""));
    assert!(blank(" \t "));
    assert!(!blank(" x "));
}

#[test]
fn replace_all_replaces_every_occurrence() {
    assert_eq!(replace_all("Really delete \"{name}\"?", "{name}", "VS Code"), "Really delete \"VS Code\"?");
    assert_eq!(replace_all("{a}{a}-{a}", "{a}", "x"), "xx-x");
    assert_eq!(replace_all("aaa", "aa", "b"), "ba");
    assert_eq!(replace_all("none here", "{x}", "y"), "none here");
    assert_eq!(replace_all("", "{x}", "y"), "");
}

#[test]
fn split_whitespace_gives_words() {
    assert_eq!(split_whitespace("  -a   --flag\tvalue \n"), vec!["-a", "--flag", "value"]);
    assert!(split_whitespace("   ").is_empty());
    assert!(split_whitespace("").is_empty());
    assert_eq!(split_whitespace("one"), vec!["one"]);
}

#[test]
fn zero_pad_pads_to_width() {
    assert_eq!(zero_pad(1, 3), "001");
    assert_eq!(zero_pad(42, 3), "042");
    assert_eq!(zero_pad(999, 3), "999");
    assert_eq!(zero_pad(1000, 3), "1000");
    assert_eq!(zero_pad(0, 3), "000");
    assert_eq!(zero_pad(7, 0), "7");
    assert_eq!(zero_pad(4294967295, 3), "4294967295");
}

#[test]
fn prefix_before_takes_first_segment() {
    assert_eq!(prefix_before("C:\\Tools\\snap-launch.exe,0", ','), "C:\\Tools\\snap-launch.exe");
    assert_eq!(prefix_before("no comma", ','), "no comma");
    assert_eq!(prefix_before(",0", ','), "");
}

#[test]
fn ascii_lowercase_only_touches_ascii_letters() {
    assert_eq!(to_ascii_lowercase("EXE"), "exe");
    assert_eq!(to_ascii_lowercase("Bat1_Ä"), "bat1_Ä");
}

#[test]
fn char_helpers() {
    assert_eq!(chars_of("가a"), vec!['가', 'a']);
    assert_eq!(string_from_chars(&vec!['x', '한']), "x한");
    assert_eq!(concatenate("ab", "cd"), "abcd");
    assert!(has_char("a/b", '/'));
    assert!(!has_char("ab", '/'));
    assert!(same_text("툴", "툴"));
    assert!(!same_text("a", "ab"));
    assert_eq!(replace_char("C:/a/b", '/', '\\'), "C:\\a\\b");
}

#[test]
fn paths_equal_ignores_case_and_slash_direction() {
    assert!(paths_equal("C:/Tools/Snap.EXE", "c:\\tools\\snap.exe"));
    assert!(!paths_equal("C:\\Tools\\a.exe", "C:\\Tools\\b.exe"));
}

#[test]
fn classify_tool_path_cases() {
    assert!(matches!(classify_tool_path("   "), ToolPathCheck::Blank));
    match classify_tool_path("  calc.exe ") {
        ToolPathCheck::Search(n) => assert_eq!(n, "calc.exe"),
        _ => panic!("expected a PATH search"),
    }
    match classify_tool_path("C:\\Program Files\\Notepad++\\notepad++.exe") {
        ToolPathCheck::Direct(p) => assert_eq!(p, "C:\\Program Files\\Notepad++\\notepad++.exe"),
        _ => panic!("expected a direct check"),
    }
    match classify_tool_path("tools/run.bat") {
        ToolPathCheck::Direct(p) => assert_eq!(p, "tools/run.bat"),
        _ => panic!("expected a direct check"),
    }
}

#[test]
fn split_pieces_drops_empty_entries() {
    assert_eq!(split_pieces(".EXE;;.BAT;", ';'), vec![".EXE", ".BAT"]);
    assert!(split_pieces(";;", ';').is_empty());
}

#[test]
fn search_candidates_order() {
    let dirs = vec!["C:\\Windows".to_string(), "".to_string(), "C:\\Bin".to_string()];
    let c = search_candidates("notepad", false, &dirs, Some(".EXE;.BAT"));
    let got: Vec<(String, String)> = c.into_iter().map(|c| (c.dir, c.file)).collect();
    let want: Vec<(String, String)> = vec![
        ("C:\\Windows", "notepad"),
        ("C:\\Windows", "notepad.EXE"),
        ("C:\\Windows", "notepad.BAT"),
        ("C:\\Bin", "notepad"),
        ("C:\\Bin", "notepad.EXE"),
        ("C:\\Bin", "notepad.BAT"),
    ]
    .into_iter()
    .map(|(a, b)| (a.to_string(), b.to_string()))
    .collect();
    assert_eq!(got, want);

    let c = search_candidates("calc.exe", true, &dirs, None);
    let got: Vec<(String, String)> = c.into_iter().map(|c| (c.dir, c.file)).collect();
    assert_eq!(
        got,
        vec![
            ("C:\\Windows".to_string(), "calc.exe".to_string()),
            ("C:\\Bin".to_string(), "calc.exe".to_string())
        ]
    );

    let c = search_candidates("ping", false, &vec!["D:\\x".to_string()], None);
    let files: Vec<String> = c.into_iter().map(|c| c.file).collect();
    assert_eq!(files, vec!["ping", "ping.EXE", "ping.BAT", "ping.CMD", "ping.COM"]);
}

#[test]
fn to_wide_encodes_utf16_with_terminator() {
    assert_eq!(to_wide("Ab"), vec![0x41, 0x62, 0]);
    assert_eq!(to_wide(""), vec![0]);
    assert_eq!(to_wide("툴"), vec![0xD234, 0]);
    assert_eq!(to_wide("🔧"), vec![0xD83D, 0xDD27, 0]);
    let s = "SnapLaunch 🔧 자주";
    let mut want: Vec<u16> = s.encode_utf16().collect();
    want.push(0);
    assert_eq!(to_wide(s), want);
}

#[test]
fn trim_agrees_with_std_whitespace() {
    let mut checked = 0;
    for c in (0u32..=0x3100).filter_map(char::from_u32) {
        let one = c.to_string();
        assert_eq!(trim(&one).is_empty(), c.is_whitespace(), "U+{:04X}", c as u32);
        checked += 1;
    }
    assert!(checked > 10000);
    let padded = format!("\u{2003}\u{205F}x y\u{85}\u{A0}");
    assert_eq!(trim(&padded), "x y");
}

fn check_parts(c: ToolPathCheck) -> (u8, String) {
    match c {
        ToolPathCheck::Blank => (0, String::new()),
        ToolPathCheck::Direct(p) => (1, p),
        ToolPathCheck::Search(p) => (2, p),
    }
}

#[test]
fn path_check_ignores_padding() {
    for p in ["calc.exe", "C:\\Tools\\a b.exe", "tools/run.bat", "", " x y "] {
        let plain = check_parts(classify_tool_path(p));
        let padded = format!(" \t{}\u{3000}\n", p);
        assert_eq!(check_parts(classify_tool_path(&padded)), plain);
        assert_eq!(check_parts(classify_tool_path(p.trim())), plain);
    }
}

#[test]
fn split_file_name_cases() {
    assert_eq!(split_file_name("notepad.exe"), ("notepad".to_string(), Some("exe".to_string())));
    assert_eq!(split_file_name("archive.tar.gz"), ("archive.tar".to_string(), Some("gz".to_string())));
    assert_eq!(split_file_name(".bashrc"), (".bashrc".to_string(), None));
    assert_eq!(split_file_name("README"), ("README".to_string(), None));
    assert_eq!(split_file_name("foo."), ("foo".to_string(), Some(String::new())));
    assert_eq!(split_file_name(""), (String::new(), None));
    assert_eq!(split_file_name(".a.b"), (".a".to_string(), Some("b".to_string())));
}

#[test]
fn split_file_name_agrees_with_std_path() {
    for n in ["notepad.exe", "a.b.c", ".hidden", "x.", "plain", "런처.bat", "..x", "v1.2"] {
        let p = std::path::Path::new(n);
        let stem = p.file_stem().and_then(|s| s.to_str()).unwrap_or("").to_string();
        let ext = p.extension().and_then(|s| s.to_str()).map(|s| s.to_string());
        assert_eq!(split_file_name(n), (stem, ext), "{}", n);
    }
}
