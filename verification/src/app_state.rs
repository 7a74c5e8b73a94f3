//! State of the management window and the decisions taken on each user action.
//!
//! The window itself (drawing, message boxes, the registry, the tools file) is
//! run by the program around the library. Every change a button or a dropped
//! file makes to the state is decided here; after a change the caller saves
//! the tools file.
use vstd::prelude::*;

use crate::i18n::{strings, table_of, Language, Strings};
use crate::paths::{name_parts, normalized_path, paths_equal, split_file_name};
use crate::text::{
    ascii_lower, blank, concatenate, is_blank, replace_all, replace_all_spec, same_text,
    to_ascii_lowercase, trim, trimmed,
};
use crate::tools::{max_order, position_of, ToolsConfig};

verus! {

/// Input of the "add a new tool" form.
pub struct ToolFormState {
    pub name: String,
    pub path: String,
    pub args: String,
}

impl ToolFormState {
    /// An empty form.
    pub fn new() -> (r: ToolFormState)
        ensures
            r.is_empty(),
    {
        ToolFormState { name: String::new(), path: String::new(), args: String::new() }
    }

    /// All three fields are empty.
    pub open spec fn is_empty(&self) -> bool {
        &&& self.name@ == Seq::<char>::empty()
        &&& self.path@ == Seq::<char>::empty()
        &&& self.args@ == Seq::<char>::empty()
    }

    /// Empties the three fields.
    pub fn clear(&mut self)
        ensures
            final(self).is_empty(),
    {
        self.name = String::new();
        self.path = String::new();
        self.args = String::new();
    }
}

impl Default for ToolFormState {
    fn default() -> (r: ToolFormState)
        ensures
            r.is_empty(),
    {
        ToolFormState::new()
    }
}

/// The row being edited in place, with its edited values.
pub struct EditingBuffer {
    pub id: String,
    pub name: String,
    pub path: String,
    pub args: String,
}

/// A file dropped on the window, described by the caller from its path.
pub struct DroppedFile {
    /// The full path.
    pub path: String,
    /// Its extension (empty when it has none).
    pub extension: String,
    /// Its file name without the extension.
    pub stem: String,
}

impl DroppedFile {
    /// A dropped file, from its full path and its file name (empty when the
    /// path has none): the extension and the stem are split off the name.
    pub fn new(path: String, file_name: &str) -> (r: DroppedFile)
        ensures
            r.path == path,
            r.stem@ == name_parts(file_name@).0,
            r.extension@ == (match name_parts(file_name@).1 {
                Some(e) => e,
                None => Seq::empty(),
            }),
    {
        let (stem, ext) = split_file_name(file_name);
        let extension = match ext {
            Some(e) => e,
            None => String::new(),
        };
        DroppedFile { path, extension, stem }
    }
}

/// Extensions of files that can be dropped as tools (compared lower-cased).
pub open spec fn is_launchable_extension(ext: Seq<char>) -> bool {
    let e = ascii_lower(ext);
    e == "exe"@ || e == "bat"@ || e == "cmd"@ || e == "lnk"@
}

/// Whether `ext` is one of the droppable extensions.
pub fn launchable_extension(ext: &str) -> (r: bool)
    ensures
        r == is_launchable_extension(ext@),
{
    let e = to_ascii_lowercase(ext);
    same_text(e.as_str(), "exe") || same_text(e.as_str(), "bat") || same_text(e.as_str(), "cmd")
        || same_text(e.as_str(), "lnk")
}

/// The last droppable file among `files`, if any.
pub open spec fn last_launchable(files: Seq<DroppedFile>) -> Option<DroppedFile>
    decreases files.len(),
{
    if files.len() == 0 {
        None
    } else if is_launchable_extension(files.last().extension@) {
        Some(files.last())
    } else {
        last_launchable(files.drop_last())
    }
}

/// Some file among `files` cannot be dropped as a tool.
pub open spec fn any_unsupported(files: Seq<DroppedFile>) -> bool {
    exists|i: int| 0 <= i < files.len() && !is_launchable_extension(#[trigger] files[i].extension@)
}

/// Author shown in the window title.
pub const AUTHOR: &'static str = "Joseph.han";

/// Website shown in the window title.
pub const WEBSITE: &'static str = "coding-now.com";

/// The window title: `"<title>  ·  v<version>  ·  <author> · <website>"`.
pub open spec fn window_title(s: Strings, version: Seq<char>) -> Seq<char> {
    s.window_title@ + "  ·  v"@ + version + "  ·  "@ + AUTHOR@ + " · "@ + WEBSITE@
}

/// Builds the window title shown for the chosen language (see `window_title`).
pub fn build_window_title(s: &Strings, version: &str) -> (r: String)
    ensures
        r@ == window_title(*s, version@),
{
    let mut t = String::from_str(s.window_title);
    t.append("  ·  v");
    t.append(version);
    t.append("  ·  ");
    t.append(AUTHOR);
    t.append(" · ");
    t.append(WEBSITE);
    t
}

/// `s` shortened to `max` characters by replacing its middle with `...`
/// (unchanged when it is not longer than `max`).
pub open spec fn truncated_middle(s: Seq<char>, max: nat) -> Seq<char> {
    if s.len() <= max {
        s
    } else {
        let head = max / 2 - 1;
        let tail = max - head - 3;
        s.take(head) + "..."@ + s.skip(s.len() - tail)
    }
}

/// `s` shortened for display to at most `max_chars` characters, keeping its
/// start and end.
pub fn truncate_middle(s: &str, max_chars: usize) -> (r: String)
    requires
        s@.len() <= max_chars || max_chars >= 3,
    ensures
        r@ == truncated_middle(s@, max_chars as nat),
{
    let chars = crate::text::chars_of(s);
    if chars.len() <= max_chars {
        return String::from_str(s);
    }
    let head = max_chars / 2 - 1;
    let tail = max_chars - head - 3;
    let head_str = crate::text::string_from_range(&chars, 0, head);
    let tail_str = crate::text::string_from_range(&chars, chars.len() - tail, chars.len());
    let mut out = head_str;
    out.append("...");
    out.append(tail_str.as_str());
    proof {
        assert(chars@.subrange(0, head as int) =~= s@.take(head as int));
        assert(chars@.subrange(chars.len() - tail, chars.len() as int) =~= s@.skip(s@.len() - tail));
    }
    out
}

/// A truncated text is exactly `max` characters long.
pub proof fn law_truncated_length(s: Seq<char>, max: nat)
    requires
        s.len() > max,
        max >= 3,
    ensures
        truncated_middle(s, max).len() == max,
{
    reveal_strlit("...");
}

/// The views of some strings, as a set.
pub open spec fn id_set(v: Seq<String>) -> Set<Seq<char>> {
    v.map_values(|s: String| s@).to_set()
}

/// No two of the strings hold the same text.
pub open spec fn distinct_views(v: Seq<String>) -> bool {
    forall|a: int, b: int| 0 <= a < b < v.len() ==> v[a]@ != v[b]@
}

/// The views of some string slices, as a set.
pub open spec fn str_set(v: Seq<&str>) -> Set<Seq<char>> {
    v.map_values(|s: &str| s@).to_set()
}

proof fn lemma_to_set_one(a: Seq<char>)
    ensures
        seq![a].to_set() == set![a],
{
    assert(seq![a][0] == a);
    assert(seq![a].to_set() =~= set![a]);
}

proof fn lemma_to_set_two(a: Seq<char>, b: Seq<char>)
    ensures
        seq![a, b].to_set() == set![a, b],
{
    assert(seq![a, b][0] == a);
    assert(seq![a, b][1] == b);
    assert(seq![a, b].to_set() =~= set![a, b]);
}

proof fn lemma_to_set_none()
    ensures
        Seq::<Seq<char>>::empty().to_set() == Set::<Seq<char>>::empty(),
{
    assert(Seq::<Seq<char>>::empty().to_set() =~= Set::<Seq<char>>::empty());
}

/// Everything the management window holds.
pub struct AppState {
    /// The tools file as loaded (saved after every change).
    pub config: ToolsConfig,
    /// The "add a new tool" form.
    pub form: ToolFormState,
    /// The row being edited in place, if any.
    pub editing: Option<EditingBuffer>,
    /// The row the up/down buttons act on.
    pub selected_id: Option<String>,
    /// The row whose deletion waits for confirmation.
    pub pending_delete_id: Option<String>,
    /// Whether the context menu is in the registry.
    pub installed: bool,
    /// Whether the list changed since the menu was last installed.
    pub dirty_since_last_install: bool,
    /// Ids of the rows changed since the menu was last installed, each once
    /// (`marks_distinct`, which every method that changes them keeps).
    pub dirty_tool_ids: Vec<String>,
    /// Path of the running executable.
    pub current_exe_path: Option<String>,
    /// Executable path recorded in the registry.
    pub registered_exe_path: Option<String>,
}

impl AppState {
    /// The ids marked as changed.
    pub open spec fn dirty_set(&self) -> Set<Seq<char>> {
        id_set(self.dirty_tool_ids@)
    }

    /// Each changed id is recorded once.
    pub open spec fn marks_distinct(&self) -> bool {
        distinct_views(self.dirty_tool_ids@)
    }

    /// The state when the window opens on `config`.
    pub fn new(config: ToolsConfig, current_exe_path: Option<String>) -> (r: AppState)
        ensures
            r.config == config,
            r.form.is_empty(),
            r.editing is None,
            r.selected_id is None,
            r.pending_delete_id is None,
            !r.installed,
            !r.dirty_since_last_install,
            r.dirty_set() == Set::<Seq<char>>::empty(),
            r.marks_distinct(),
            r.current_exe_path == current_exe_path,
            r.registered_exe_path is None,
    {
        let r = AppState {
            config,
            form: ToolFormState::new(),
            editing: None,
            selected_id: None,
            pending_delete_id: None,
            installed: false,
            dirty_since_last_install: false,
            dirty_tool_ids: Vec::new(),
            current_exe_path,
            registered_exe_path: None,
        };
        assert(r.dirty_set() =~= Set::<Seq<char>>::empty());
        r
    }

    /// Records what the registry says: whether the menu is installed and which
    /// executable it points to.
    pub fn refresh_install_state(&mut self, installed: bool, registered_exe_path: Option<String>)
        ensures
            *final(self) == (AppState { installed, registered_exe_path, ..*old(self) }),
    {
        self.installed = installed;
        self.registered_exe_path = registered_exe_path;
    }

    /// The string table of the current language.
    pub fn s(&self) -> (r: Strings)
        ensures
            r == table_of(self.config.language),
    {
        strings(self.config.language)
    }

    /// Whether the row of `id` is marked as changed.
    pub fn is_dirty(&self, id: &str) -> (r: bool)
        ensures
            r == self.dirty_set().contains(id@),
    {
        let mut i: usize = 0;
        while i < self.dirty_tool_ids.len()
            invariant
                i <= self.dirty_tool_ids.len(),
                forall|j: int| 0 <= j < i ==> self.dirty_tool_ids@[j]@ != id@,
            decreases self.dirty_tool_ids.len() - i,
        {
            if same_text(self.dirty_tool_ids[i].as_str(), id) {
                proof {
                    let v = self.dirty_tool_ids@.map_values(|s: String| s@);
                    assert(v[i as int] == id@);
                }
                return true;
            }
            i = i + 1;
        }
        proof {
            let v = self.dirty_tool_ids@.map_values(|s: String| s@);
            if v.to_set().contains(id@) {
                let k = choose|k: int| 0 <= k < v.len() && v[k] == id@;
                assert(self.dirty_tool_ids@[k]@ == id@);
            }
        }
        false
    }

    /// Marks one id as changed.
    fn mark_one(&mut self, id: &str)
        ensures
            *final(self) == (AppState { dirty_tool_ids: final(self).dirty_tool_ids, ..*old(self) }),
            final(self).dirty_set() == old(self).dirty_set().insert(id@),
            old(self).marks_distinct() ==> final(self).marks_distinct(),
    {
        if !self.is_dirty(id) {
            let ghost before = self.dirty_tool_ids@;
            proof {
                let f = |s: String| s@;
                assert forall|j: int| 0 <= j < before.len() implies before[j]@ != id@ by {
                    if before[j]@ == id@ {
                        assert(before.map_values(f)[j] == id@);
                        assert(before.map_values(f).contains(id@));
                    }
                }
            }
            self.dirty_tool_ids.push(String::from_str(id));
            proof {
                let f = |s: String| s@;
                assert(self.dirty_tool_ids@.map_values(f) =~= before.map_values(f).push(id@));
                before.map_values(f).lemma_push_to_set_commute(id@);
            }
        } else {
            assert(old(self).dirty_set().insert(id@) =~= old(self).dirty_set());
        }
    }

    /// Records that the tool list changed: the given ids are marked as changed
    /// rows, and the list as changed since the last install. (The caller then
    /// saves the tools file; deletions pass no ids.)
    pub fn mark_dirty(&mut self, changed_ids: &[&str])
        ensures
            *final(self) == (AppState {
                dirty_tool_ids: final(self).dirty_tool_ids,
                dirty_since_last_install: true,
                ..*old(self)
            }),
            final(self).dirty_set() == old(self).dirty_set().union(str_set(changed_ids@)),
            old(self).marks_distinct() ==> final(self).marks_distinct(),
    {
        let mut i: usize = 0;
        while i < changed_ids.len()
            invariant
                i <= changed_ids.len(),
                old(self).marks_distinct() ==> self.marks_distinct(),
                *self == (AppState { dirty_tool_ids: self.dirty_tool_ids, ..*old(self) }),
                self.dirty_set() == old(self).dirty_set().union(str_set(changed_ids@.take(i as int))),
            decreases changed_ids.len() - i,
        {
            self.mark_one(changed_ids[i]);
            proof {
                let f = |s: &str| s@;
                let t = changed_ids@.take(i as int);
                assert(changed_ids@.take(i + 1) =~= t.push(changed_ids@[i as int]));
                assert(changed_ids@.take(i + 1).map_values(f) =~= t.map_values(f).push(changed_ids@[i as int]@));
                t.map_values(f).lemma_push_to_set_commute(changed_ids@[i as int]@);
                assert(self.dirty_set() =~= old(self).dirty_set().union(str_set(changed_ids@.take(i + 1))));
            }
            i = i + 1;
        }
        assert(changed_ids@.take(changed_ids.len() as int) =~= changed_ids@);
        self.dirty_since_last_install = true;
    }

    /// Clears every change mark (after the menu was installed or refreshed).
    pub fn clear_dirty_marks(&mut self)
        ensures
            *final(self) == (AppState {
                dirty_tool_ids: final(self).dirty_tool_ids,
                dirty_since_last_install: false,
                ..*old(self)
            }),
            final(self).dirty_set() == Set::<Seq<char>>::empty(),
            final(self).marks_distinct(),
    {
        self.dirty_tool_ids = Vec::new();
        self.dirty_since_last_install = false;
        assert(self.dirty_set() =~= Set::<Seq<char>>::empty());
    }

    /// Removes the change mark of `id` (its row is gone).
    fn unmark(&mut self, id: &str)
        ensures
            *final(self) == (AppState { dirty_tool_ids: final(self).dirty_tool_ids, ..*old(self) }),
            final(self).dirty_set() == old(self).dirty_set().remove(id@),
            old(self).marks_distinct() ==> final(self).marks_distinct(),
    {
        let mut kept: Vec<String> = Vec::new();
        let mut i: usize = 0;
        let ghost f = |s: String| s@;
        while i < self.dirty_tool_ids.len()
            invariant
                i <= self.dirty_tool_ids.len(),
                *self == *old(self),
                f == (|s: String| s@),
                id_set(kept@) == id_set(self.dirty_tool_ids@.take(i as int)).remove(id@),
                forall|a: int| 0 <= a < kept.len() ==> exists|j: int| 0 <= j < i && #[trigger] kept@[a] == self.dirty_tool_ids@[j],
                old(self).marks_distinct() ==> distinct_views(kept@),
            decreases self.dirty_tool_ids.len() - i,
        {
            let ghost t = self.dirty_tool_ids@.take(i as int);
            let ghost x = self.dirty_tool_ids@[i as int];
            let ghost before = kept@;
            proof {
                assert(self.dirty_tool_ids@.take(i + 1) =~= t.push(x));
                assert(t.push(x).map_values(f) =~= t.map_values(f).push(x@));
                t.map_values(f).lemma_push_to_set_commute(x@);
            }
            if !same_text(self.dirty_tool_ids[i].as_str(), id) {
                proof {
                    if old(self).marks_distinct() {
                        assert forall|a: int| 0 <= a < before.len() implies before[a]@ != x@ by {
                            let j = choose|j: int| 0 <= j < i && #[trigger] before[a] == self.dirty_tool_ids@[j];
                        }
                    }
                }
                kept.push(self.dirty_tool_ids[i].clone());
                proof {
                    assert(kept@.map_values(f) =~= before.map_values(f).push(x@));
                    before.map_values(f).lemma_push_to_set_commute(x@);
                }
            }
            i = i + 1;
            assert(id_set(kept@) =~= id_set(self.dirty_tool_ids@.take(i as int)).remove(id@));
        }
        assert(self.dirty_tool_ids@.take(self.dirty_tool_ids.len() as int) =~= self.dirty_tool_ids@);
        self.dirty_tool_ids = kept;
    }

    /// Switches the language; says whether it changed (then the caller saves
    /// the tools file, without marking the list as changed).
    pub fn set_language(&mut self, lang: Language) -> (r: bool)
        ensures
            r == (lang != old(self).config.language),
            final(self).config.language == lang,
            final(self).config.tools == old(self).config.tools,
            *final(self) == (AppState { config: final(self).config, ..*old(self) }),
    {
        if lang != self.config.language {
            self.config.language = lang;
            true
        } else {
            false
        }
    }

    /// The menu was installed or refreshed: records the registry state and
    /// clears every change mark.
    pub fn install_succeeded(&mut self, installed: bool, registered_exe_path: Option<String>)
        ensures
            old(self).marks_distinct() ==> final(self).marks_distinct(),
            *final(self) == (AppState {
                installed,
                registered_exe_path,
                dirty_tool_ids: final(self).dirty_tool_ids,
                dirty_since_last_install: false,
                ..*old(self)
            }),
            final(self).dirty_set() == Set::<Seq<char>>::empty(),
    {
        self.refresh_install_state(installed, registered_exe_path);
        self.clear_dirty_marks();
    }

    // ───────────────────────── the add form ─────────────────────────

    /// The form can be submitted: name and path are not blank.
    pub open spec fn form_ready(&self) -> bool {
        !is_blank(self.form.name@) && !is_blank(self.form.path@)
    }

    pub fn can_add(&self) -> (r: bool)
        ensures
            r == self.form_ready(),
    {
        !blank(self.form.name.as_str()) && !blank(self.form.path.as_str())
    }

    /// Adds the tool described by the form (its fields trimmed), empties the
    /// form and marks the new row as changed; returns the new id. Does nothing
    /// when the form is not ready.
    pub fn add_from_form(&mut self) -> (r: Option<String>)
        requires
            old(self).config.tools.len() < u32::MAX,
            max_order(old(self).config.tools@) < u32::MAX,
        ensures
            old(self).marks_distinct() ==> final(self).marks_distinct(),
            !old(self).form_ready() ==> r is None && *final(self) == *old(self),
            old(self).form_ready() ==> {
                &&& r matches Some(id)
                &&& final(self).config.language == old(self).config.language
                &&& final(self).config.tools.len() == old(self).config.tools.len() + 1
                &&& final(self).config.tools@.drop_last() == old(self).config.tools@
                &&& final(self).config.tools@.last().id@ == id@
                &&& id@ == crate::tools::next_tool_id(old(self).config.tools@)
                &&& final(self).config.tools@.last().name@ == trimmed(old(self).form.name@)
                &&& final(self).config.tools@.last().path@ == trimmed(old(self).form.path@)
                &&& final(self).config.tools@.last().args@ == trimmed(old(self).form.args@)
                &&& final(self).config.tools@.last().icon_path@ == Seq::<char>::empty()
                &&& final(self).config.tools@.last().order == max_order(old(self).config.tools@) + 1
                &&& final(self).form.is_empty()
                &&& final(self).dirty_set() == old(self).dirty_set().insert(id@)
                &&& final(self).dirty_since_last_install
                &&& final(self).editing == old(self).editing
                &&& final(self).selected_id == old(self).selected_id
                &&& final(self).pending_delete_id == old(self).pending_delete_id
                &&& final(self).installed == old(self).installed
                &&& final(self).current_exe_path == old(self).current_exe_path
                &&& final(self).registered_exe_path == old(self).registered_exe_path
            },
    {
        if !self.can_add() {
            return None;
        }
        let name = trim(self.form.name.as_str());
        let path = trim(self.form.path.as_str());
        let args = trim(self.form.args.as_str());
        let new_id = self.config.add_tool(name, path, args).id.clone();
        self.form.clear();
        let ghost mid = *self;
        let ids = [new_id.as_str()];
        self.mark_dirty(&ids);
        proof {
            assert(ids@.map_values(|s: &str| s@) =~= seq![new_id@]);
            lemma_to_set_one(new_id@);
            assert(str_set(ids@) =~= set![new_id@]);
            assert(mid.dirty_set().union(set![new_id@]) =~= mid.dirty_set().insert(new_id@));
        }
        Some(new_id)
    }

    // ───────────────────────── rows ─────────────────────────

    /// Selects the row of `id` (for the up/down buttons).
    pub fn select(&mut self, id: &str)
        ensures
            *final(self) == (AppState { selected_id: final(self).selected_id, ..*old(self) }),
            final(self).selected_id matches Some(s) && s@ == id@,
    {
        self.selected_id = Some(String::from_str(id));
    }

    /// Opens the row of `id` for editing with its current values, and selects
    /// it. Does nothing when no tool has that id.
    pub fn start_edit(&mut self, id: &str)
        ensures
            position_of(old(self).config.tools@, id@) is None ==> *final(self) == *old(self),
            position_of(old(self).config.tools@, id@) matches Some(i) ==> {
                let t = old(self).config.tools@[i];
                &&& final(self).editing matches Some(b)
                &&& b.id@ == id@ && b.name@ == t.name@ && b.path@ == t.path@ && b.args@ == t.args@
                &&& final(self).selected_id matches Some(s)
                &&& s@ == id@
                &&& *final(self) == (AppState {
                    editing: final(self).editing,
                    selected_id: final(self).selected_id,
                    ..*old(self)
                })
            },
    {
        proof {
            crate::tools::lemma_position_of_some(self.config.tools@, id@);
        }
        let buffer = match self.config.find(id) {
            Some(t) => Some(
                EditingBuffer {
                    id: String::from_str(id),
                    name: t.name.clone(),
                    path: t.path.clone(),
                    args: t.args.clone(),
                },
            ),
            None => None,
        };
        if let Some(b) = buffer {
            self.editing = Some(b);
            self.select(id);
        }
    }

    /// Leaves editing without saving.
    pub fn cancel_edit(&mut self)
        ensures
            *final(self) == (AppState { editing: None, ..*old(self) }),
    {
        self.editing = None;
    }

    /// Saves the row being edited into the tool `id` (fields trimmed), ends
    /// editing and marks the row as changed. Does nothing when no row is being
    /// edited.
    pub fn save_edit(&mut self, id: &str)
        ensures
            old(self).marks_distinct() ==> final(self).marks_distinct(),
            old(self).editing is None ==> *final(self) == *old(self),
            old(self).editing matches Some(b) ==> {
                &&& final(self).editing is None
                &&& final(self).dirty_since_last_install
                &&& final(self).config.language == old(self).config.language
                &&& final(self).form == old(self).form
                &&& final(self).selected_id == old(self).selected_id
                &&& final(self).pending_delete_id == old(self).pending_delete_id
                &&& final(self).installed == old(self).installed
                &&& final(self).current_exe_path == old(self).current_exe_path
                &&& final(self).registered_exe_path == old(self).registered_exe_path
                &&& match position_of(old(self).config.tools@, id@) {
                    None => {
                        &&& final(self).config.tools@ == old(self).config.tools@
                        &&& final(self).dirty_set() == old(self).dirty_set()
                    },
                    Some(i) => {
                        let t = final(self).config.tools@[i];
                        &&& final(self).config.tools@.len() == old(self).config.tools@.len()
                        &&& forall|j: int|
                            0 <= j < old(self).config.tools@.len() && j != i
                                ==> final(self).config.tools@[j] == old(self).config.tools@[j]
                        &&& t.id == old(self).config.tools@[i].id
                        &&& t.icon_path == old(self).config.tools@[i].icon_path
                        &&& t.order == old(self).config.tools@[i].order
                        &&& t.name@ == trimmed(b.name@)
                        &&& t.path@ == trimmed(b.path@)
                        &&& t.args@ == trimmed(b.args@)
                        &&& final(self).dirty_set() == old(self).dirty_set().insert(id@)
                    },
                }
            },
    {
        let taken = self.editing.take();
        match taken {
            None => {},
            Some(buf) => {
                let name = trim(buf.name.as_str());
                let path = trim(buf.path.as_str());
                let args = trim(buf.args.as_str());
                let found = match self.config.find_mut(id) {
                    Some(t) => {
                        t.name = name;
                        t.path = path;
                        t.args = args;
                        true
                    },
                    None => false,
                };
                if found {
                    let ids = [id];
                    let ghost mid = *self;
                    self.mark_dirty(&ids);
                    proof {
                        assert(ids@.map_values(|s: &str| s@) =~= seq![id@]);
                        lemma_to_set_one(id@);
                        assert(str_set(ids@) =~= set![id@]);
                        assert(mid.dirty_set().union(set![id@]) =~= mid.dirty_set().insert(id@));
                    }
                } else {
                    let ids: [&str; 0] = [];
                    let ghost mid = *self;
                    self.mark_dirty(&ids);
                    proof {
                        assert(ids@.map_values(|s: &str| s@) =~= Seq::<Seq<char>>::empty());
                        lemma_to_set_none();
                        assert(str_set(ids@) =~= Set::<Seq<char>>::empty());
                        assert(mid.dirty_set().union(Set::<Seq<char>>::empty()) =~= mid.dirty_set());
                    }
                }
            },
        }
    }

    /// Asks for the row of `id` to be deleted; the deletion waits for the
    /// user's confirmation.
    pub fn request_delete(&mut self, id: &str)
        ensures
            *final(self) == (AppState { pending_delete_id: final(self).pending_delete_id, ..*old(self) }),
            final(self).pending_delete_id matches Some(p) && p@ == id@,
    {
        self.pending_delete_id = Some(String::from_str(id));
    }

    /// The confirmation question for deleting `id`: the template with the
    /// tool's name (or the id, when no tool has it).
    pub open spec fn delete_prompt(&self, id: Seq<char>) -> Seq<char> {
        let name = match position_of(self.config.tools@, id) {
            Some(i) => self.config.tools@[i].name@,
            None => id,
        };
        replace_all_spec(table_of(self.config.language).delete_confirm_template@, "{name}"@, name)
    }

    /// Takes the pending deletion, if any, with the question to ask.
    pub fn take_pending_delete(&mut self) -> (r: Option<(String, String)>)
        ensures
            *final(self) == (AppState { pending_delete_id: None, ..*old(self) }),
            old(self).pending_delete_id is None ==> r is None,
            old(self).pending_delete_id matches Some(p) ==> {
                &&& r matches Some((id, prompt))
                &&& id == p
                &&& prompt@ == old(self).delete_prompt(p@)
            },
    {
        proof {
            reveal_strlit("{name}");
        }
        let pending = self.pending_delete_id.take();
        match pending {
            None => None,
            Some(id) => {
                proof {
                    crate::tools::lemma_position_of_some(self.config.tools@, id@);
                }
                let name = match self.config.find(id.as_str()) {
                    Some(t) => t.name.clone(),
                    None => id.clone(),
                };
                let s = self.s();
                let prompt = replace_all(s.delete_confirm_template, "{name}", name.as_str());
                Some((id, prompt))
            },
        }
    }

    /// Deletes the tool `id` after the user confirmed: removes it from the
    /// list (renumbering the rest), drops its change mark, unselects it if it
    /// was selected, and marks the list as changed.
    pub fn confirm_delete(&mut self, id: &str)
        requires
            old(self).config.tools.len() <= u32::MAX,
        ensures
            old(self).marks_distinct() ==> final(self).marks_distinct(),
            final(self).config.language == old(self).config.language,
            final(self).config.tools@ == crate::tools::renumbered(
                crate::tools::without_id(old(self).config.tools@, id@),
            ),
            final(self).dirty_set() == old(self).dirty_set().remove(id@),
            final(self).dirty_since_last_install,
            (old(self).selected_id matches Some(s) && s@ == id@) ==> final(self).selected_id is None,
            !(old(self).selected_id matches Some(s) && s@ == id@) ==> final(self).selected_id
                == old(self).selected_id,
            final(self).form == old(self).form,
            final(self).editing == old(self).editing,
            final(self).pending_delete_id == old(self).pending_delete_id,
            final(self).installed == old(self).installed,
            final(self).current_exe_path == old(self).current_exe_path,
            final(self).registered_exe_path == old(self).registered_exe_path,
    {
        self.config.remove_tool(id);
        self.unmark(id);
        let clear_selection = match &self.selected_id {
            Some(s) => same_text(s.as_str(), id),
            None => false,
        };
        if clear_selection {
            self.selected_id = None;
        }
        let ids: [&str; 0] = [];
        let ghost mid = *self;
        self.mark_dirty(&ids);
        proof {
            assert(ids@.map_values(|s: &str| s@) =~= Seq::<Seq<char>>::empty());
            lemma_to_set_none();
                        assert(str_set(ids@) =~= Set::<Seq<char>>::empty());
            assert(mid.dirty_set().union(Set::<Seq<char>>::empty()) =~= mid.dirty_set());
        }
    }

    /// The positions exchanged when moving the selected row toward the top
    /// (`up`) or the bottom: the selected row and its neighbour, when both are
    /// in the list.
    pub open spec fn move_target(&self, up: bool) -> Option<(int, int)> {
        match self.selected_id {
            Some(s) => match position_of(self.config.tools@, s@) {
                Some(i) => if up {
                    if i > 0 { Some((i, i - 1)) } else { None }
                } else {
                    if i + 1 < self.config.tools.len() { Some((i, i + 1)) } else { None }
                },
                None => None,
            },
            None => None,
        }
    }

    /// Moves the selected row one place toward the top (`up`) or the bottom,
    /// renumbers the list and marks both moved rows as changed. Says whether
    /// anything moved: nothing moves without a selection, for an id not in the
    /// list, or at the end of the list.
    pub fn move_selected(&mut self, up: bool) -> (r: bool)
        requires
            old(self).config.tools.len() <= u32::MAX,
        ensures
            old(self).marks_distinct() ==> final(self).marks_distinct(),
            r == old(self).move_target(up) is Some,
            !r ==> *final(self) == *old(self),
            old(self).move_target(up) matches Some((i, j)) ==> {
                &&& final(self).config.tools@ == crate::tools::renumbered(
                    crate::tools::swapped(old(self).config.tools@, i, j),
                )
                &&& final(self).config.language == old(self).config.language
                &&& final(self).dirty_set() == old(self).dirty_set().insert(
                    old(self).config.tools@[i].id@,
                ).insert(old(self).config.tools@[j].id@)
                &&& *final(self) == (AppState {
                    config: final(self).config,
                    dirty_tool_ids: final(self).dirty_tool_ids,
                    dirty_since_last_install: true,
                    ..*old(self)
                })
            },
    {
        let idx = match &self.selected_id {
            Some(s) => {
                proof {
                    crate::tools::lemma_position_of_some(self.config.tools@, s@);
                }
                self.config.index_of(s.as_str())
            },
            None => None,
        };
        match idx {
            None => false,
            Some(i) => {
                let j = if up {
                    if i == 0 {
                        return false;
                    }
                    i - 1
                } else {
                    if i + 1 >= self.config.tools.len() {
                        return false;
                    }
                    i + 1
                };
                let id_i = self.config.tools[i].id.clone();
                let id_j = self.config.tools[j].id.clone();
                let ghost old_tools = self.config.tools@;
                self.config.swap(i, j);
                let ids = [id_i.as_str(), id_j.as_str()];
                let ghost mid = *self;
                self.mark_dirty(&ids);
                proof {
                    assert(ids@.map_values(|s: &str| s@) =~= seq![id_i@, id_j@]);
                    lemma_to_set_two(id_i@, id_j@);
                    assert(str_set(ids@) =~= set![id_i@, id_j@]);
                    assert(mid.dirty_set().union(set![id_i@, id_j@]) =~= mid.dirty_set().insert(
                        id_i@,
                    ).insert(id_j@));
                    assert(old_tools[i as int].id@ == id_i@);
                }
                true
            },
        }
    }

    // ───────────────────────── dropped files ─────────────────────────

    /// Fills the form from files dropped on the window: the last droppable
    /// file sets the path, and its stem the name when the name is blank.
    /// Returns whether some file could not be dropped (the caller says so).
    pub fn apply_dropped_files(&mut self, files: &Vec<DroppedFile>) -> (r: bool)
        ensures
            r == any_unsupported(files@),
            last_launchable(files@) is None ==> *final(self) == *old(self),
            last_launchable(files@) matches Some(f) ==> {
                &&& final(self).form.path == f.path
                &&& is_blank(old(self).form.name@) ==> final(self).form.name == f.stem
                &&& !is_blank(old(self).form.name@) ==> final(self).form.name == old(self).form.name
                &&& final(self).form.args == old(self).form.args
                &&& *final(self) == (AppState { form: final(self).form, ..*old(self) })
            },
    {
        let mut unsupported = false;
        let mut chosen: Option<usize> = None;
        let mut i: usize = 0;
        while i < files.len()
            invariant
                i <= files.len(),
                unsupported == any_unsupported(files@.take(i as int)),
                chosen is None ==> last_launchable(files@.take(i as int)) is None,
                chosen matches Some(k) ==> k < i && last_launchable(files@.take(i as int)) == Some(
                    files@[k as int],
                ),
            decreases files.len() - i,
        {
            let ghost t = files@.take(i as int);
            let ghost t1 = files@.take(i + 1);
            proof {
                assert(t1.drop_last() =~= t);
                assert(t1.last() == files@[i as int]);
            }
            if launchable_extension(files[i].extension.as_str()) {
                chosen = Some(i);
            } else {
                unsupported = true;
            }
            proof {
                if any_unsupported(t1) {
                    let k = choose|k: int| 0 <= k < t1.len() && !is_launchable_extension(#[trigger] t1[k].extension@);
                    if k < i {
                        assert(t[k] == t1[k]);
                    }
                }
                if any_unsupported(t) {
                    let k = choose|k: int| 0 <= k < t.len() && !is_launchable_extension(#[trigger] t[k].extension@);
                    assert(t1[k] == t[k]);
                }
            }
            i = i + 1;
        }
        assert(files@.take(files.len() as int) =~= files@);
        match chosen {
            None => {},
            Some(k) => {
                let f = &files[k];
                self.form.path = f.path.clone();
                if blank(self.form.name.as_str()) {
                    self.form.name = f.stem.clone();
                }
            },
        }
        unsupported
    }

    // ───────────────────────── status shown ─────────────────────────

    /// The warning shown when the registered executable is not the running one:
    /// the template with `{old}` and `{new}` filled in. None when either path is
    /// unknown or they are the same path.
    pub open spec fn mismatch_warning(&self) -> Option<Seq<char>> {
        match (self.registered_exe_path, self.current_exe_path) {
            (Some(reg), Some(cur)) => if normalized_path(reg@) == normalized_path(cur@) {
                None
            } else {
                Some(
                    replace_all_spec(
                        replace_all_spec(
                            table_of(self.config.language).path_mismatch_template@,
                            "{old}"@,
                            reg@,
                        ),
                        "{new}"@,
                        cur@,
                    ),
                )
            },
            _ => None,
        }
    }

    pub fn path_mismatch_warning(&self) -> (r: Option<String>)
        ensures
            r is None <==> self.mismatch_warning() is None,
            r matches Some(w) ==> self.mismatch_warning() == Some(w@),
    {
        proof {
            reveal_strlit("{old}");
            reveal_strlit("{new}");
        }
        match (&self.registered_exe_path, &self.current_exe_path) {
            (Some(reg), Some(cur)) => {
                if paths_equal(reg.as_str(), cur.as_str()) {
                    None
                } else {
                    let s = self.s();
                    let a = replace_all(s.path_mismatch_template, "{old}", reg.as_str());
                    Some(replace_all(a.as_str(), "{new}", cur.as_str()))
                }
            },
            _ => None,
        }
    }

    /// The installation status line.
    pub fn status_text(&self) -> (r: &'static str)
        ensures
            self.installed ==> r@ == table_of(self.config.language).status_installed@,
            !self.installed ==> r@ == table_of(self.config.language).status_not_installed@,
    {
        let s = self.s();
        if self.installed {
            s.status_installed
        } else {
            s.status_not_installed
        }
    }

    /// The label of the "refresh menu" button, which tells when the list
    /// changed since the last install.
    pub fn refresh_label(&self) -> (r: &'static str)
        ensures
            self.dirty_since_last_install ==> r@ == table_of(self.config.language).btn_refresh_dirty@,
            !self.dirty_since_last_install ==> r@ == table_of(self.config.language).btn_refresh@,
    {
        let s = self.s();
        if self.dirty_since_last_install {
            s.btn_refresh_dirty
        } else {
            s.btn_refresh
        }
    }

    /// The "selected: <name>" line under the list, when a listed tool is
    /// selected.
    pub fn selected_label(&self) -> (r: Option<String>)
        ensures
            r is Some <==> (self.selected_id matches Some(s) && position_of(self.config.tools@, s@)
                is Some),
            r matches Some(l) ==> (self.selected_id matches Some(s) && position_of(
                self.config.tools@,
                s@,
            ) matches Some(i) && l@ == table_of(self.config.language).selected_prefix@
                + self.config.tools@[i].name@),
    {
        match &self.selected_id {
            Some(id) => {
                proof {
                    crate::tools::lemma_position_of_some(self.config.tools@, id@);
                }
                match self.config.find(id.as_str()) {
                    Some(t) => {
                        let s = self.s();
                        Some(concatenate(s.selected_prefix, t.name.as_str()))
                    },
                    None => None,
                }
            },
            None => None,
        }
    }
}

} // verus!
