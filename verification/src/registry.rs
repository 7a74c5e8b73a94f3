//! What the context menu looks like in the registry.
//!
//! The menu is a cascading submenu under two roots of `HKEY_CURRENT_USER`
//! (desktop background and folder background). This module computes every
//! value that installing the menu writes, in the order it is written, the
//! recovery batch file that removes the menu without the executable, and how
//! the executable path is read back from the written `Icon` value. The writes
//! themselves are performed by the program around the library.
use vstd::prelude::*;

use crate::i18n::{strings, table_of, Strings};
use crate::text::{
    before_first, blank, concatenate, is_blank, prefix_before, trim, trimmed, zero_pad, zero_padded,
};
use crate::tools::{stably_sorted_from, Tool, ToolsConfig};

verus! {

/// Menu root for a right click on the desktop background (under HKCU).
pub const DESKTOP_ROOT: &'static str = "Software\\Classes\\DesktopBackground\\Shell\\SnapLaunch";

/// Menu root for a right click on an empty folder area (under HKCU).
pub const DIRECTORY_ROOT: &'static str = "Software\\Classes\\Directory\\Background\\Shell\\SnapLaunch";

/// Name of the recovery batch file written next to the executable.
pub const RECOVERY_BAT_NAME: &'static str = "SnapLaunch_복구.bat";

/// `CommandFlags` value that draws a separator above a menu item.
pub const SEPARATOR_BEFORE: u32 = 0x20;

/// Data of one registry value.
pub enum RegData {
    /// A `REG_SZ` string.
    Text(String),
    /// A `REG_DWORD`.
    Dword(u32),
}

/// One value to write: under key `key` (a path below HKCU), the value `name`
/// (empty for the key's default value) set to `data`.
pub struct RegEntry {
    pub key: String,
    pub name: String,
    pub data: RegData,
}

/// Registry data as plain values.
pub enum RegDataView {
    Text(Seq<char>),
    Dword(u32),
}

/// A registry write as plain values.
pub struct RegEntryView {
    pub key: Seq<char>,
    pub name: Seq<char>,
    pub data: RegDataView,
}

impl View for RegEntry {
    type V = RegEntryView;

    open spec fn view(&self) -> RegEntryView {
        RegEntryView {
            key: self.key@,
            name: self.name@,
            data: match self.data {
                RegData::Text(s) => RegDataView::Text(s@),
                RegData::Dword(d) => RegDataView::Dword(d),
            },
        }
    }
}

/// The plain values of a list of writes.
pub open spec fn entry_views(v: Seq<RegEntry>) -> Seq<RegEntryView> {
    v.map_values(|e: RegEntry| e@)
}

pub open spec fn text_entry(key: Seq<char>, name: Seq<char>, text: Seq<char>) -> RegEntryView {
    RegEntryView { key, name, data: RegDataView::Text(text) }
}

// ───────────────────────── key names ─────────────────────────

/// A character kept in a key name: ASCII letters and digits, `_` and `-`.
pub open spec fn is_key_char(c: char) -> bool {
    ('a' <= c && c <= 'z') || ('A' <= c && c <= 'Z') || ('0' <= c && c <= '9') || c == '_' || c
        == '-'
}

/// `s` with every other character replaced by `_`.
pub open spec fn sanitized(s: Seq<char>) -> Seq<char> {
    s.map_values(|c: char| if is_key_char(c) { c } else { '_' })
}

/// `s` made safe as a registry key name.
pub fn sanitize_key(s: &str) -> (r: String)
    ensures
        r@ == sanitized(s@),
{
    let cs = crate::text::chars_of(s);
    let mut out: Vec<char> = Vec::new();
    let mut i: usize = 0;
    while i < cs.len()
        invariant
            cs@ == s@,
            i <= cs.len(),
            out@ == sanitized(cs@.take(i as int)),
        decreases cs.len() - i,
    {
        let c = cs[i];
        let keep = ('a' <= c && c <= 'z') || ('A' <= c && c <= 'Z') || ('0' <= c && c <= '9') || c
            == '_' || c == '-';
        out.push(if keep { c } else { '_' });
        proof {
            assert(cs@.take(i + 1) =~= cs@.take(i as int).push(c));
        }
        i = i + 1;
        assert(out@ =~= sanitized(cs@.take(i as int)));
    }
    assert(cs@.take(cs.len() as int) =~= cs@);
    crate::text::string_from_chars(&out)
}

// ───────────────────────── the menu layout ─────────────────────────

/// `"<exe>,0"`: the first icon resource of `exe`.
pub open spec fn exe_icon(exe: Seq<char>) -> Seq<char> {
    exe + ",0"@
}

/// The icon of a tool's menu item: its icon path, or its program's first icon
/// when the icon path is blank.
pub open spec fn tool_icon(t: Tool) -> Seq<char> {
    if is_blank(t.icon_path@) {
        exe_icon(t.path@)
    } else {
        t.icon_path@
    }
}

/// `"\"<exe>\" <rest>"`: a command line that runs `exe`.
pub open spec fn command_line(exe: Seq<char>, rest: Seq<char>) -> Seq<char> {
    "\""@ + exe + "\" "@ + rest
}

/// The `shell` container below a root.
pub open spec fn shell_key(root: Seq<char>) -> Seq<char> {
    root + "\\shell"@
}

/// Key of the tool shown at position `i` (from 0): `aaa_NNN_<id>`, so that
/// the alphabetical order of the keys is the menu order.
pub open spec fn tool_key(root: Seq<char>, i: nat, t: Tool) -> Seq<char> {
    shell_key(root) + "\\aaa_"@ + zero_padded(i + 1, 3) + "_"@ + sanitized(t.id@)
}

/// The values written for the tool at position `i`.
pub open spec fn tool_entries(root: Seq<char>, exe: Seq<char>, i: nat, t: Tool) -> Seq<RegEntryView> {
    let key = tool_key(root, i, t);
    seq![
        text_entry(key, "MUIVerb"@, t.name@),
        text_entry(key, "Icon"@, tool_icon(t)),
        text_entry(key + "\\command"@, ""@, command_line(exe, "launch "@ + t.id@)),
    ]
}

/// The values written for a list of tools, in list order.
pub open spec fn tools_entries(root: Seq<char>, exe: Seq<char>, tools: Seq<Tool>) -> Seq<RegEntryView>
    decreases tools.len(),
{
    if tools.len() == 0 {
        seq![]
    } else {
        tools_entries(root, exe, tools.drop_last()) + tool_entries(
            root,
            exe,
            (tools.len() - 1) as nat,
            tools.last(),
        )
    }
}

/// Every value written below one root, in writing order: the submenu itself,
/// the tools in `sorted` order, the management item (with a separator above
/// it) and the uninstall item.
pub open spec fn menu_entries(root: Seq<char>, exe: Seq<char>, s: Strings, sorted: Seq<Tool>) -> Seq<
    RegEntryView,
> {
    let manage = shell_key(root) + "\\zzz_manage"@;
    let remove = shell_key(root) + "\\zzz_uninstall"@;
    seq![
        text_entry(root, "MUIVerb"@, s.menu_top_label@),
        text_entry(root, "SubCommands"@, ""@),
        text_entry(root, "Icon"@, exe_icon(exe)),
    ] + tools_entries(root, exe, sorted) + seq![
        text_entry(manage, "MUIVerb"@, s.menu_manage@),
        text_entry(manage, "Icon"@, exe_icon(exe)),
        RegEntryView { key: manage, name: "CommandFlags"@, data: RegDataView::Dword(SEPARATOR_BEFORE) },
        text_entry(manage + "\\command"@, ""@, command_line(exe, "launch-manage"@)),
        text_entry(remove, "MUIVerb"@, s.menu_uninstall@),
        text_entry(remove + "\\command"@, ""@, command_line(exe, "uninstall"@)),
    ]
}

/// Everything installing the menu writes: the same tree below both roots.
pub open spec fn install_entries(exe: Seq<char>, s: Strings, sorted: Seq<Tool>) -> Seq<RegEntryView> {
    menu_entries(DESKTOP_ROOT@, exe, s, sorted) + menu_entries(DIRECTORY_ROOT@, exe, s, sorted)
}

fn text_value(key: &str, name: &str, text: String) -> (r: RegEntry)
    ensures
        r@ == text_entry(key@, name@, text@),
{
    RegEntry { key: String::from_str(key), name: String::from_str(name), data: RegData::Text(text) }
}

fn push_tool_entries(out: &mut Vec<RegEntry>, root: &str, exe: &str, i: usize, t: &Tool)
    requires
        i < u32::MAX,
    ensures
        entry_views(final(out)@) == entry_views(old(out)@) + tool_entries(root@, exe@, i as nat, *t),
{
    let mut key = String::from_str(root);
    key.append("\\shell");
    key.append("\\aaa_");
    let number = zero_pad((i + 1) as u32, 3);
    key.append(number.as_str());
    key.append("_");
    let safe = sanitize_key(t.id.as_str());
    key.append(safe.as_str());
    proof {
        assert(key@ =~= tool_key(root@, i as nat, *t));
    }
    let icon = if blank(t.icon_path.as_str()) {
        concatenate(t.path.as_str(), ",0")
    } else {
        t.icon_path.clone()
    };
    let mut command = String::from_str("\"");
    command.append(exe);
    command.append("\" ");
    command.append("launch ");
    command.append(t.id.as_str());
    proof {
        assert(command@ =~= command_line(exe@, "launch "@ + t.id@));
    }
    let cmd_key = concatenate(key.as_str(), "\\command");
    let ghost before = entry_views(out@);
    out.push(text_value(key.as_str(), "MUIVerb", t.name.clone()));
    out.push(text_value(key.as_str(), "Icon", icon));
    out.push(text_value(cmd_key.as_str(), "", command));
    assert(entry_views(out@) =~= before + tool_entries(root@, exe@, i as nat, *t));
}

/// Every value written below `root`, in writing order, for the tools listed in
/// `sorted` (already in menu order).
fn menu_entries_for(out: &mut Vec<RegEntry>, root: &str, exe: &str, s: &Strings, sorted: &Vec<Tool>)
    requires
        sorted.len() < u32::MAX,
    ensures
        entry_views(final(out)@) == entry_views(old(out)@) + menu_entries(root@, exe@, *s, sorted@),
{
    let ghost start = entry_views(out@);
    let exe_icon_text = concatenate(exe, ",0");
    out.push(text_value(root, "MUIVerb", String::from_str(s.menu_top_label)));
    out.push(text_value(root, "SubCommands", String::from_str("")));
    out.push(text_value(root, "Icon", exe_icon_text.clone()));
    let ghost head = entry_views(out@);
    assert(head =~= start + seq![
        text_entry(root@, "MUIVerb"@, s.menu_top_label@),
        text_entry(root@, "SubCommands"@, ""@),
        text_entry(root@, "Icon"@, exe_icon(exe@)),
    ]);
    let mut i: usize = 0;
    while i < sorted.len()
        invariant
            sorted.len() < u32::MAX,
            i <= sorted.len(),
            entry_views(out@) == head + tools_entries(root@, exe@, sorted@.take(i as int)),
        decreases sorted.len() - i,
    {
        push_tool_entries(out, root, exe, i, &sorted[i]);
        proof {
            let t = sorted@.take(i + 1);
            assert(t.drop_last() =~= sorted@.take(i as int));
            assert(tools_entries(root@, exe@, t) == tools_entries(root@, exe@, t.drop_last())
                + tool_entries(root@, exe@, i as nat, sorted@[i as int]));
        }
        i = i + 1;
        assert(entry_views(out@) =~= head + tools_entries(root@, exe@, sorted@.take(i as int)));
    }
    assert(sorted@.take(sorted.len() as int) =~= sorted@);
    let shell = concatenate(root, "\\shell");
    let manage = concatenate(shell.as_str(), "\\zzz_manage");
    let manage_cmd = concatenate(manage.as_str(), "\\command");
    let remove = concatenate(shell.as_str(), "\\zzz_uninstall");
    let remove_cmd = concatenate(remove.as_str(), "\\command");
    let mut manage_line = String::from_str("\"");
    manage_line.append(exe);
    manage_line.append("\" ");
    manage_line.append("launch-manage");
    let mut remove_line = String::from_str("\"");
    remove_line.append(exe);
    remove_line.append("\" ");
    remove_line.append("uninstall");
    proof {
        assert(manage_line@ =~= command_line(exe@, "launch-manage"@));
        assert(remove_line@ =~= command_line(exe@, "uninstall"@));
    }
    let ghost mid = entry_views(out@);
    out.push(text_value(manage.as_str(), "MUIVerb", String::from_str(s.menu_manage)));
    out.push(text_value(manage.as_str(), "Icon", exe_icon_text));
    out.push(
        RegEntry {
            key: manage.clone(),
            name: String::from_str("CommandFlags"),
            data: RegData::Dword(SEPARATOR_BEFORE),
        },
    );
    out.push(text_value(manage_cmd.as_str(), "", manage_line));
    out.push(text_value(remove.as_str(), "MUIVerb", String::from_str(s.menu_uninstall)));
    out.push(text_value(remove_cmd.as_str(), "", remove_line));
    let ghost m = shell_key(root@) + "\\zzz_manage"@;
    let ghost u = shell_key(root@) + "\\zzz_uninstall"@;
    assert(entry_views(out@) =~= mid + seq![
        text_entry(m, "MUIVerb"@, s.menu_manage@),
        text_entry(m, "Icon"@, exe_icon(exe@)),
        RegEntryView { key: m, name: "CommandFlags"@, data: RegDataView::Dword(SEPARATOR_BEFORE) },
        text_entry(m + "\\command"@, ""@, command_line(exe@, "launch-manage"@)),
        text_entry(u, "MUIVerb"@, s.menu_uninstall@),
        text_entry(u + "\\command"@, ""@, command_line(exe@, "uninstall"@)),
    ]);
    assert(entry_views(out@) =~= start + menu_entries(root@, exe@, *s, sorted@));
}

/// Every registry value that installing the menu writes, in writing order, for
/// the executable at `exe_path`: the menu in the configured language below both
/// roots, with the tools sorted by their order.
pub fn install_layout(exe_path: &str, config: &ToolsConfig) -> (r: Vec<RegEntry>)
    requires
        config.tools.len() < u32::MAX,
    ensures
        exists|sorted: Seq<Tool>|
            stably_sorted_from(sorted, config.tools@) && entry_views(r@) == install_entries(
                exe_path@,
                table_of(config.language),
                sorted,
            ),
{
    let s = strings(config.language);
    let mut sorted = config.duplicate();
    sorted.sort_by_order();
    let mut out: Vec<RegEntry> = Vec::new();
    menu_entries_for(&mut out, DESKTOP_ROOT, exe_path, &s, &sorted.tools);
    menu_entries_for(&mut out, DIRECTORY_ROOT, exe_path, &s, &sorted.tools);
    assert(entry_views(out@) =~= install_entries(exe_path@, s, sorted.tools@));
    out
}

// ───────────────────────── menu order ─────────────────────────

/// `a` comes before `b` in the order the shell sorts key names (character by
/// character; a proper prefix first).
pub open spec fn key_before(a: Seq<char>, b: Seq<char>) -> bool
    decreases a.len(),
{
    if a.len() == 0 {
        b.len() > 0
    } else if b.len() == 0 {
        false
    } else if a[0] != b[0] {
        a[0] < b[0]
    } else {
        key_before(a.drop_first(), b.drop_first())
    }
}

proof fn lemma_key_before_common_prefix(p: Seq<char>, a: Seq<char>, b: Seq<char>)
    requires
        key_before(a, b),
    ensures
        key_before(p + a, p + b),
    decreases p.len(),
{
    if p.len() > 0 {
        assert((p + a).drop_first() =~= p.drop_first() + a);
        assert((p + b).drop_first() =~= p.drop_first() + b);
        lemma_key_before_common_prefix(p.drop_first(), a, b);
    } else {
        assert(p + a =~= a);
        assert(p + b =~= b);
    }
}

proof fn lemma_key_before_extend(a: Seq<char>, b: Seq<char>, x: Seq<char>, y: Seq<char>)
    requires
        a.len() == b.len(),
        key_before(a, b),
    ensures
        key_before(a + x, b + y),
    decreases a.len(),
{
    assert(a.len() > 0);
    assert((a + x)[0] == a[0]);
    assert((b + y)[0] == b[0]);
    if a[0] == b[0] {
        assert((a + x).drop_first() =~= a.drop_first() + x);
        assert((b + y).drop_first() =~= b.drop_first() + y);
        lemma_key_before_extend(a.drop_first(), b.drop_first(), x, y);
    }
}

proof fn lemma_three_digits(n: nat)
    requires
        1 <= n < 1000,
    ensures
        zero_padded(n, 3) == seq![
            crate::text::digit_char(n / 100),
            crate::text::digit_char((n / 10) % 10),
            crate::text::digit_char(n % 10),
        ],
{
    reveal_with_fuel(crate::text::decimal, 4);
    let d = crate::text::decimal(n);
    if n < 10 {
        assert(d =~= seq![crate::text::digit_char(n)]);
        assert(crate::text::zeros(2) =~= seq!['0', '0']);
    } else if n < 100 {
        assert(crate::text::decimal(n / 10) =~= seq![crate::text::digit_char(n / 10)]);
        assert(d =~= seq![crate::text::digit_char(n / 10), crate::text::digit_char(n % 10)]);
        assert(crate::text::zeros(1) =~= seq!['0']);
    } else {
        assert(crate::text::decimal(n / 100) =~= seq![crate::text::digit_char(n / 100)]);
        assert(crate::text::decimal(n / 10) =~= seq![
            crate::text::digit_char(n / 100),
            crate::text::digit_char((n / 10) % 10),
        ]);
        assert(d =~= seq![
            crate::text::digit_char(n / 100),
            crate::text::digit_char((n / 10) % 10),
            crate::text::digit_char(n % 10),
        ]);
    }
    assert(zero_padded(n, 3) =~= seq![
        crate::text::digit_char(n / 100),
        crate::text::digit_char((n / 10) % 10),
        crate::text::digit_char(n % 10),
    ]);
}

proof fn lemma_digit_order(a: nat, b: nat)
    requires
        a < b < 10,
    ensures
        crate::text::digit_char(a) < crate::text::digit_char(b),
{
}

proof fn lemma_padded_order(m: nat, n: nat)
    requires
        1 <= m < n < 1000,
    ensures
        key_before(zero_padded(m, 3), zero_padded(n, 3)),
{
    lemma_three_digits(m);
    lemma_three_digits(n);
    let a = zero_padded(m, 3);
    let b = zero_padded(n, 3);
    reveal_with_fuel(key_before, 4);
    assert(m / 100 <= n / 100);
    assert(m / 10 == 10 * (m / 100) + (m / 10) % 10);
    assert(n / 10 == 10 * (n / 100) + (n / 10) % 10);
    assert(m == 10 * (m / 10) + m % 10);
    assert(n == 10 * (n / 10) + n % 10);
    if m / 100 != n / 100 {
        lemma_digit_order(m / 100, n / 100);
        assert(a[0] != b[0]);
    } else {
        assert(a[0] == b[0]);
        assert(a.drop_first() =~= seq![crate::text::digit_char((m / 10) % 10), crate::text::digit_char(m % 10)]);
        assert(b.drop_first() =~= seq![crate::text::digit_char((n / 10) % 10), crate::text::digit_char(n % 10)]);
        if (m / 10) % 10 != (n / 10) % 10 {
            assert((m / 10) % 10 < (n / 10) % 10);
            lemma_digit_order((m / 10) % 10, (n / 10) % 10);
            assert(key_before(a.drop_first(), b.drop_first()));
        } else {
            assert(m % 10 < n % 10);
            lemma_digit_order(m % 10, n % 10);
            assert(a.drop_first().drop_first() =~= seq![crate::text::digit_char(m % 10)]);
            assert(b.drop_first().drop_first() =~= seq![crate::text::digit_char(n % 10)]);
            assert(key_before(a.drop_first().drop_first(), b.drop_first().drop_first()));
            assert(key_before(a.drop_first(), b.drop_first()));
        }
    }
}

/// The shell shows a submenu's items in the order of their key names. For up
/// to 999 tools the tool keys sort in list order, and every tool key sorts
/// before the management and uninstall items.
pub proof fn law_menu_keys_in_list_order(root: Seq<char>, i: nat, j: nat, a: Tool, b: Tool)
    requires
        i < j < 999,
    ensures
        key_before(tool_key(root, i, a), tool_key(root, j, b)),
        key_before(tool_key(root, i, a), shell_key(root) + "\\zzz_manage"@),
        key_before(shell_key(root) + "\\zzz_manage"@, shell_key(root) + "\\zzz_uninstall"@),
{
    reveal_strlit("\\aaa_");
    reveal_strlit("\\zzz_manage");
    reveal_strlit("\\zzz_uninstall");
    let p = shell_key(root) + "\\aaa_"@;
    let ta = zero_padded(i + 1, 3);
    let tb = zero_padded(j + 1, 3);
    lemma_padded_order(i + 1, j + 1);
    lemma_three_digits(i + 1);
    lemma_three_digits(j + 1);
    lemma_key_before_extend(ta, tb, "_"@ + sanitized(a.id@), "_"@ + sanitized(b.id@));
    lemma_key_before_common_prefix(p, ta + ("_"@ + sanitized(a.id@)), tb + ("_"@ + sanitized(b.id@)));
    assert(tool_key(root, i, a) =~= p + (ta + ("_"@ + sanitized(a.id@))));
    assert(tool_key(root, j, b) =~= p + (tb + ("_"@ + sanitized(b.id@))));

    let s = shell_key(root);
    let ka = "\\aaa_"@ + ta + "_"@ + sanitized(a.id@);
    assert(ka[0] == '\\');
    assert(ka[1] == 'a');
    assert(ka.drop_first()[0] == 'a');
    let km = "\\zzz_manage"@;
    assert(km.drop_first()[0] == 'z');
    assert(key_before(ka.drop_first(), km.drop_first()));
    assert(key_before(ka, km));
    lemma_key_before_common_prefix(s, ka, km);
    assert(tool_key(root, i, a) =~= s + ka);

    let ku = "\\zzz_uninstall"@;
    let t1 = km.drop_first().drop_first().drop_first().drop_first().drop_first();
    let t2 = ku.drop_first().drop_first().drop_first().drop_first().drop_first();
    assert(t1[0] == 'm' && t2[0] == 'u');
    assert(key_before(t1, t2));
    assert(key_before(km.drop_first().drop_first().drop_first().drop_first(), ku.drop_first().drop_first().drop_first().drop_first()));
    assert(key_before(km.drop_first().drop_first().drop_first(), ku.drop_first().drop_first().drop_first()));
    assert(key_before(km.drop_first().drop_first(), ku.drop_first().drop_first()));
    assert(key_before(km.drop_first(), ku.drop_first()));
    assert(key_before(km, ku));
    lemma_key_before_common_prefix(s, km, ku);
}

// ───────────────────────── reading the menu back ─────────────────────────

/// The executable path recorded in an `Icon` value (`"<path>,0"`): the text
/// before the first comma, trimmed; `None` when that is empty.
pub open spec fn icon_exe_path(icon: Seq<char>) -> Option<Seq<char>> {
    let cleaned = trimmed(before_first(icon, ','));
    if cleaned.len() == 0 {
        None
    } else {
        Some(cleaned)
    }
}

/// The executable path recorded in the menu's `Icon` value.
pub fn exe_path_from_icon(icon: &str) -> (r: Option<String>)
    ensures
        r is None <==> icon_exe_path(icon@) is None,
        r matches Some(p) ==> icon_exe_path(icon@) == Some(p@),
{
    let head = prefix_before(icon, ',');
    let cleaned = trim(head.as_str());
    if cleaned.as_str().unicode_len() == 0 {
        None
    } else {
        Some(cleaned)
    }
}

proof fn lemma_before_first_append(s: Seq<char>, t: Seq<char>, sep: char)
    requires
        !s.contains(sep),
        t.len() > 0,
        t[0] == sep,
    ensures
        before_first(s + t, sep) == s,
    decreases s.len(),
{
    if s.len() == 0 {
        assert(s + t =~= t);
    } else {
        assert((s + t).drop_first() =~= s.drop_first() + t);
        assert(!s.drop_first().contains(sep)) by {
            if s.drop_first().contains(sep) {
                let k = choose|k: int| 0 <= k < s.drop_first().len() && s.drop_first()[k] == sep;
                assert(s[k + 1] == sep);
            }
        }
        lemma_before_first_append(s.drop_first(), t, sep);
        assert(s[0] != sep);
        assert(seq![s[0]] + s.drop_first() =~= s);
    }
}

/// Reading the `Icon` value that installing writes gives back the executable
/// path, for a path that holds no comma, is not blank and has no surrounding
/// whitespace.
pub proof fn law_icon_round_trip(exe: Seq<char>)
    requires
        !exe.contains(','),
        exe.len() > 0,
        trimmed(exe) == exe,
    ensures
        icon_exe_path(exe_icon(exe)) == Some(exe),
{
    reveal_strlit(",0");
    lemma_before_first_append(exe, ",0"@, ',');
}

/// Installing writes, below each of the two roots, the `Icon` value that reads
/// back as the executable path (for a path that is not blank, holds no comma
/// and has no surrounding whitespace); the two roots get the same values.
pub proof fn law_install_records_exe_path(exe: Seq<char>, s: Strings, sorted: Seq<Tool>)
    requires
        !exe.contains(','),
        exe.len() > 0,
        trimmed(exe) == exe,
    ensures
        install_entries(exe, s, sorted)[2] == text_entry(DESKTOP_ROOT@, "Icon"@, exe_icon(exe)),
        install_entries(exe, s, sorted)[(menu_entries(DESKTOP_ROOT@, exe, s, sorted).len() + 2) as int]
            == text_entry(DIRECTORY_ROOT@, "Icon"@, exe_icon(exe)),
        menu_entries(DESKTOP_ROOT@, exe, s, sorted).len() == menu_entries(DIRECTORY_ROOT@, exe, s, sorted).len(),
        icon_exe_path(exe_icon(exe)) == Some(exe),
{
    law_icon_round_trip(exe);
    lemma_tools_entries_len(DESKTOP_ROOT@, exe, sorted);
    lemma_tools_entries_len(DIRECTORY_ROOT@, exe, sorted);
    let d = menu_entries(DESKTOP_ROOT@, exe, s, sorted);
    let e = menu_entries(DIRECTORY_ROOT@, exe, s, sorted);
    assert((d + e)[(d.len() + 2) as int] == e[2]);
}

proof fn lemma_tools_entries_len(root: Seq<char>, exe: Seq<char>, tools: Seq<Tool>)
    ensures
        tools_entries(root, exe, tools).len() == 3 * tools.len(),
    decreases tools.len(),
{
    if tools.len() > 0 {
        lemma_tools_entries_len(root, exe, tools.drop_last());
    }
}

// ───────────────────────── recovery batch file ─────────────────────────

/// Text of the recovery batch file: it deletes both menu roots with `reg`,
/// printing the two messages of the chosen language around it.
pub open spec fn recovery_bat_text(s: Strings) -> Seq<char> {
    "@echo off\r\nchcp 65001 >nul 2>&1\r\necho "@ + s.recovery_bat_message_start@
        + "\r\nreg delete \"HKCU\\"@ + DESKTOP_ROOT@ + "\" /f >nul 2>&1\r\nreg delete \"HKCU\\"@
        + DIRECTORY_ROOT@ + "\" /f >nul 2>&1\r\necho.\r\necho "@ + s.recovery_bat_message_done@
        + "\r\npause\r\n"@
}

/// The recovery batch file for the given language.
pub fn recovery_bat_content(s: &Strings) -> (r: String)
    ensures
        r@ == recovery_bat_text(*s),
{
    let mut out = String::from_str("@echo off\r\nchcp 65001 >nul 2>&1\r\necho ");
    out.append(s.recovery_bat_message_start);
    out.append("\r\nreg delete \"HKCU\\");
    out.append(DESKTOP_ROOT);
    out.append("\" /f >nul 2>&1\r\nreg delete \"HKCU\\");
    out.append(DIRECTORY_ROOT);
    out.append("\" /f >nul 2>&1\r\necho.\r\necho ");
    out.append(s.recovery_bat_message_done);
    out.append("\r\npause\r\n");
    out
}

} // verus!
