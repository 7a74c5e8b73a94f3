//! The list of registered tools and the operations the manager applies to it.
//!
//! Reading and writing the tools file is left to the program around the
//! library; what is kept here is the list itself: how ids are chosen, how the
//! display order is kept as 1..N, and how the list is sorted by that order.
use vstd::prelude::*;
use vstd::relations::injective_on;
use vstd::set_lib::{lemma_int_range, lemma_len_subset, lemma_map_size, set_int_range};

use crate::i18n::Language;
use crate::text::{
    concatenate, lemma_zero_padded_injective, same_text, zero_pad,
    zero_padded,
};

verus! {

/// File name of the tools file, kept next to the executable.
pub const CONFIG_FILE_NAME: &'static str = "snap-launch-tools.json";

/// One program registered in the context menu.
#[derive(Clone, Debug)]
pub struct Tool {
    /// Unique id (such as `"tool_001"`), used in registry key names and in the
    /// `launch` argument.
    pub id: String,
    /// Name shown in the menu.
    pub name: String,
    /// Full path of the program (or a command found through `PATH`).
    pub path: String,
    /// Arguments, separated by whitespace.
    pub args: String,
    /// Icon path; when blank the program's own icon is used.
    pub icon_path: String,
    /// Position in the menu, ascending.
    pub order: u32,
}

impl Tool {
    /// A copy of this tool.
    pub fn duplicate(&self) -> (r: Tool)
        ensures
            r == *self,
    {
        Tool {
            id: self.id.clone(),
            name: self.name.clone(),
            path: self.path.clone(),
            args: self.args.clone(),
            icon_path: self.icon_path.clone(),
            order: self.order,
        }
    }
}

/// Contents of the tools file.
#[derive(Clone, Debug)]
pub struct ToolsConfig {
    /// Language of the UI and of the context menu.
    pub language: Language,
    pub tools: Vec<Tool>,
}

impl Default for ToolsConfig {
    /// The empty configuration, in Korean.
    fn default() -> (r: ToolsConfig)
        ensures
            r.language == Language::Korean,
            r.tools@ == Seq::<Tool>::empty(),
    {
        ToolsConfig { language: Language::Korean, tools: Vec::new() }
    }
}

// ───────────────────────── ids ─────────────────────────

/// `"tool_"`.
pub open spec fn id_prefix() -> Seq<char> {
    seq!['t', 'o', 'o', 'l', '_']
}

/// The id numbered `n`: `"tool_"` followed by `n` padded to three digits.
pub open spec fn tool_id_text(n: nat) -> Seq<char> {
    id_prefix() + zero_padded(n, 3)
}

/// Whether some tool has the id `id`.
pub open spec fn has_id(tools: Seq<Tool>, id: Seq<char>) -> bool {
    exists|i: int| 0 <= i < tools.len() && #[trigger] tools[i].id@ == id
}

/// Whether the id numbered `n` is still unused.
pub open spec fn id_number_free(tools: Seq<Tool>, n: nat) -> bool {
    !has_id(tools, tool_id_text(n))
}

/// `n` is the least number from 1 whose id is unused.
pub open spec fn is_least_free(tools: Seq<Tool>, n: nat) -> bool {
    &&& n >= 1
    &&& id_number_free(tools, n)
    &&& forall|m: nat| 1 <= m < n ==> !id_number_free(tools, m)
}

pub open spec fn least_free_number(tools: Seq<Tool>) -> nat {
    choose|n: nat| is_least_free(tools, n)
}

/// The id a new tool gets: the unused `"tool_NNN"` with the least number.
pub open spec fn next_tool_id(tools: Seq<Tool>) -> Seq<char> {
    tool_id_text(least_free_number(tools))
}

/// Ids made from different numbers differ.
pub proof fn lemma_tool_id_injective(m: nat, n: nat)
    requires
        tool_id_text(m) == tool_id_text(n),
    ensures
        m == n,
{
    let a = tool_id_text(m);
    let b = tool_id_text(n);
    assert(a.skip(5) =~= zero_padded(m, 3));
    assert(b.skip(5) =~= zero_padded(n, 3));
    lemma_zero_padded_injective(m, n, 3);
}

proof fn lemma_least_free_unique(tools: Seq<Tool>, a: nat, b: nat)
    requires
        is_least_free(tools, a),
        is_least_free(tools, b),
    ensures
        a == b,
{
}

/// When the ids numbered 1..=k are all taken, there are at least k tools.
proof fn lemma_taken_ids_bound(tools: Seq<Tool>, k: nat)
    requires
        forall|m: nat| 1 <= m <= k ==> !id_number_free(tools, m),
    ensures
        k <= tools.len(),
{
    let dom = set_int_range(1, (k + 1) as int);
    let f = |m: int| choose|i: int| 0 <= i < tools.len() && tools[i].id@ == tool_id_text(m as nat);
    assert forall|m: int| dom.contains(m) implies 0 <= #[trigger] f(m) < tools.len()
        && tools[f(m)].id@ == tool_id_text(m as nat) by {
        assert(!id_number_free(tools, m as nat));
    }
    assert(injective_on(f, dom)) by {
        assert forall|x1: int, x2: int|
            dom.contains(x1) && dom.contains(x2) && #[trigger] f(x1) == #[trigger] f(x2) implies x1 == x2 by {
            lemma_tool_id_injective(x1 as nat, x2 as nat);
        }
    }
    lemma_int_range(1, (k + 1) as int);
    lemma_int_range(0, tools.len() as int);
    let img = dom.map(f);
    lemma_map_size(dom, img, f);
    assert(img.subset_of(set_int_range(0, tools.len() as int)));
    lemma_len_subset(img, set_int_range(0, tools.len() as int));
}

/// The least unused id number exists and is at most one more than the number
/// of tools.
pub proof fn lemma_least_free_exists(tools: Seq<Tool>)
    ensures
        is_least_free(tools, least_free_number(tools)),
        least_free_number(tools) <= tools.len() + 1,
{
    let n = least_free_from(tools, 1);
    assert(is_least_free(tools, n));
    lemma_least_free_unique(tools, n, least_free_number(tools));
}

proof fn least_free_from(tools: Seq<Tool>, start: nat) -> (n: nat)
    requires
        start >= 1,
        start <= tools.len() + 1,
        forall|m: nat| 1 <= m < start ==> !id_number_free(tools, m),
    ensures
        is_least_free(tools, n),
        n <= tools.len() + 1,
    decreases tools.len() + 1 - start,
{
    if id_number_free(tools, start) {
        start
    } else if start == tools.len() + 1 {
        lemma_taken_ids_bound(tools, start);
        start
    } else {
        least_free_from(tools, start + 1)
    }
}

// ───────────────────────── order ─────────────────────────

/// The largest `order` in the list (0 for an empty list).
pub open spec fn max_order(tools: Seq<Tool>) -> nat
    decreases tools.len(),
{
    if tools.len() == 0 {
        0
    } else {
        let m = max_order(tools.drop_last());
        if tools.last().order as nat > m {
            tools.last().order as nat
        } else {
            m
        }
    }
}

/// `t` with its order replaced.
pub open spec fn with_order(t: Tool, order: u32) -> Tool {
    Tool { id: t.id, name: t.name, path: t.path, args: t.args, icon_path: t.icon_path, order }
}

/// The list with orders 1..N assigned by position.
pub open spec fn renumbered(s: Seq<Tool>) -> Seq<Tool> {
    Seq::new(s.len(), |i: int| with_order(s[i], (i + 1) as u32))
}

/// The orders run 1..N in list order.
pub open spec fn numbered_in_sequence(s: Seq<Tool>) -> bool {
    forall|i: int| 0 <= i < s.len() ==> #[trigger] s[i].order == i + 1
}

/// Keeps the tools whose id is not `id`.
pub open spec fn id_differs(id: Seq<char>) -> spec_fn(Tool) -> bool {
    |t: Tool| t.id@ != id
}

pub open spec fn without_id(s: Seq<Tool>, id: Seq<char>) -> Seq<Tool> {
    s.filter(id_differs(id))
}

/// The list with the tools at `a` and `b` exchanged.
pub open spec fn swapped(s: Seq<Tool>, a: int, b: int) -> Seq<Tool> {
    s.update(a, s[b]).update(b, s[a])
}

/// `i` is the first position holding a tool with id `id`.
pub open spec fn is_first_with_id(tools: Seq<Tool>, id: Seq<char>, i: int) -> bool {
    &&& 0 <= i < tools.len()
    &&& tools[i].id@ == id
    &&& forall|j: int| 0 <= j < i ==> tools[j].id@ != id
}

/// The first position of a tool with id `id`, if any.
pub open spec fn position_of(tools: Seq<Tool>, id: Seq<char>) -> Option<int> {
    if has_id(tools, id) {
        Some(choose|i: int| is_first_with_id(tools, id, i))
    } else {
        None
    }
}

/// A position that `position_of` gives holds the first tool with that id.
pub proof fn lemma_position_of_some(tools: Seq<Tool>, id: Seq<char>)
    ensures
        position_of(tools, id) matches Some(i) ==> is_first_with_id(tools, id, i),
        position_of(tools, id) is None ==> !has_id(tools, id),
{
    if has_id(tools, id) {
        let w = choose|i: int| 0 <= i < tools.len() && #[trigger] tools[i].id@ == id;
        let i = first_with_id_below(tools, id, w);
        assert(is_first_with_id(tools, id, i));
    }
}

proof fn first_with_id_below(tools: Seq<Tool>, id: Seq<char>, w: int) -> (i: int)
    requires
        0 <= w < tools.len(),
        tools[w].id@ == id,
    ensures
        is_first_with_id(tools, id, i),
    decreases w,
{
    if exists|j: int| 0 <= j < w && #[trigger] tools[j].id@ == id {
        let j = choose|j: int| 0 <= j < w && #[trigger] tools[j].id@ == id;
        first_with_id_below(tools, id, j)
    } else {
        w
    }
}

proof fn lemma_position_of(tools: Seq<Tool>, id: Seq<char>, i: int)
    requires
        is_first_with_id(tools, id, i),
    ensures
        position_of(tools, id) == Some(i),
{
    assert(has_id(tools, id));
    let j = choose|j: int| is_first_with_id(tools, id, j);
    assert(is_first_with_id(tools, id, j));
    if j < i {
        assert(tools[j].id@ != id);
    }
    if i < j {
        assert(tools[i].id@ != id);
    }
}

/// The list is sorted by `order`, ascending.
pub open spec fn order_sorted(s: Seq<Tool>) -> bool {
    forall|i: int, j: int| 0 <= i < j < s.len() ==> s[i].order <= s[j].order
}

/// Keeps the tools whose order is `k`.
pub open spec fn order_is(k: u32) -> spec_fn(Tool) -> bool {
    |t: Tool| t.order == k
}

/// `r` is `s` stably sorted by order: it is sorted, and for every order value
/// the tools with that order come in the same sequence as in `s`.
pub open spec fn stably_sorted_from(r: Seq<Tool>, s: Seq<Tool>) -> bool {
    &&& order_sorted(r)
    &&& forall|k: u32| #[trigger] r.filter(order_is(k)) == s.filter(order_is(k))
}

proof fn lemma_insert_sorted(r: Seq<Tool>, p: int, x: Tool)
    requires
        order_sorted(r),
        0 <= p <= r.len(),
        forall|j: int| 0 <= j < p ==> r[j].order <= x.order,
        forall|j: int| p <= j < r.len() ==> r[j].order > x.order,
    ensures
        order_sorted(r.insert(p, x)),
        forall|k: u32|
            #[trigger] r.insert(p, x).filter(order_is(k)) == (if k == x.order {
                r.filter(order_is(k)).push(x)
            } else {
                r.filter(order_is(k))
            }),
{
    let n = r.insert(p, x);
    assert(n =~= r.take(p) + seq![x] + r.skip(p));
    assert(r =~= r.take(p) + r.skip(p));
    assert forall|i: int, j: int| 0 <= i < j < n.len() implies n[i].order <= n[j].order by {
        if j < p {
            assert(n[i] == r[i] && n[j] == r[j]);
        } else if j == p {
            assert(n[i] == r[i]);
        } else if i < p {
            assert(n[i] == r[i] && n[j] == r[j - 1]);
        } else if i == p {
            assert(n[j] == r[j - 1]);
        } else {
            assert(n[i] == r[i - 1] && n[j] == r[j - 1]);
        }
    }
    assert forall|k: u32| #[trigger] n.filter(order_is(k)) == (if k == x.order {
        r.filter(order_is(k)).push(x)
    } else {
        r.filter(order_is(k))
    }) by {
        let f = order_is(k);
        let a = r.take(p);
        let b = r.skip(p);
        Seq::filter_distributes_over_add(a + seq![x], b, f);
        Seq::filter_distributes_over_add(a, seq![x], f);
        Seq::filter_distributes_over_add(a, b, f);
        a.lemma_filter_push(x, f);
        assert(a + seq![x] =~= a.push(x));
        if k == x.order {
            assert forall|j: int| 0 <= j < b.len() implies !f(b[j]) by {
                assert(b[j] == r[p + j]);
            }
            b.lemma_all_neg_filter_empty(f);
            assert(b.filter(f) =~= Seq::<Tool>::empty());
            assert(a.filter(f) + b.filter(f) =~= a.filter(f));
            assert(a.filter(f).push(x) + b.filter(f) =~= a.filter(f).push(x));
        }
    }
}

/// Filtering a list by an order value that no tool in it has gives nothing.
proof fn lemma_filter_absent_order(s: Seq<Tool>, k: u32)
    requires
        forall|j: int| 0 <= j < s.len() ==> s[j].order != k,
    ensures
        s.filter(order_is(k)).len() == 0,
{
    let f = order_is(k);
    assert forall|j: int| 0 <= j < s.len() implies !f(s[j]) by {}
    assert(s.all(|x: Tool| !f(x)));
    s.lemma_all_neg_filter_empty(f);
}

/// Two sorted lists that agree on the tools of every order value are equal.
proof fn lemma_sorted_filters_determine(a: Seq<Tool>, b: Seq<Tool>)
    requires
        order_sorted(a),
        order_sorted(b),
        forall|k: u32| #[trigger] a.filter(order_is(k)) == b.filter(order_is(k)),
    ensures
        a == b,
    decreases a.len() + b.len(),
{
    if a.len() == 0 && b.len() == 0 {
        assert(a =~= b);
    } else if a.len() == 0 {
        let y = b.last();
        b.drop_last().lemma_filter_push(y, order_is(y.order));
        assert(b.drop_last().push(y) =~= b);
        lemma_filter_absent_order(a, y.order);
        assert(a.filter(order_is(y.order)) == b.filter(order_is(y.order)));
    } else if b.len() == 0 {
        let x = a.last();
        a.drop_last().lemma_filter_push(x, order_is(x.order));
        assert(a.drop_last().push(x) =~= a);
        lemma_filter_absent_order(b, x.order);
        assert(a.filter(order_is(x.order)) == b.filter(order_is(x.order)));
    } else {
        let a1 = a.drop_last();
        let b1 = b.drop_last();
        let x = a.last();
        let y = b.last();
        assert(a1.push(x) =~= a);
        assert(b1.push(y) =~= b);
        a1.lemma_filter_push(x, order_is(x.order));
        b1.lemma_filter_push(y, order_is(y.order));
        if x.order > y.order {
            assert forall|j: int| 0 <= j < b.len() implies b[j].order != x.order by {
                assert(b[j].order <= b[b.len() - 1].order);
            }
            lemma_filter_absent_order(b, x.order);
            assert(a.filter(order_is(x.order)) == b.filter(order_is(x.order)));
        }
        if y.order > x.order {
            assert forall|j: int| 0 <= j < a.len() implies a[j].order != y.order by {
                assert(a[j].order <= a[a.len() - 1].order);
            }
            lemma_filter_absent_order(a, y.order);
            assert(a.filter(order_is(y.order)) == b.filter(order_is(y.order)));
        }
        let k = x.order;
        assert(a.filter(order_is(k)) == b.filter(order_is(k)));
        assert(a1.filter(order_is(k)).push(x) == b1.filter(order_is(k)).push(y));
        assert(x == a1.filter(order_is(k)).push(x).last());
        assert(x == y);
        assert(a1.filter(order_is(k)) =~= a1.filter(order_is(k)).push(x).drop_last());
        assert(b1.filter(order_is(k)) =~= b1.filter(order_is(k)).push(y).drop_last());
        assert forall|j: u32| #[trigger] a1.filter(order_is(j)) == b1.filter(order_is(j)) by {
            a1.lemma_filter_push(x, order_is(j));
            b1.lemma_filter_push(y, order_is(j));
            assert(a.filter(order_is(j)) == b.filter(order_is(j)));
        }
        lemma_sorted_filters_determine(a1, b1);
    }
}

/// Sorting by order has one outcome: two lists that are both `s` stably sorted
/// are the same list.
pub proof fn law_stable_sort_unique(a: Seq<Tool>, b: Seq<Tool>, s: Seq<Tool>)
    requires
        stably_sorted_from(a, s),
        stably_sorted_from(b, s),
    ensures
        a == b,
{
    lemma_sorted_filters_determine(a, b);
}

/// A list that is already sorted by order is left as it is by sorting.
pub proof fn law_sort_keeps_sorted(r: Seq<Tool>, s: Seq<Tool>)
    requires
        order_sorted(s),
        stably_sorted_from(r, s),
    ensures
        r == s,
{
    lemma_sorted_filters_determine(r, s);
}

/// Reading back a list whose orders run 1..N (as every change leaves it)
/// gives the same list: the sort applied on reading changes nothing.
pub proof fn law_reload_keeps_numbered_list(r: Seq<Tool>, s: Seq<Tool>)
    requires
        numbered_in_sequence(s),
        stably_sorted_from(r, s),
    ensures
        r == s,
{
    assert(order_sorted(s));
    law_sort_keeps_sorted(r, s);
}

/// Numbering by position leaves the list sorted by order.
pub proof fn law_renumbered_is_sorted(s: Seq<Tool>)
    requires
        s.len() <= u32::MAX,
    ensures
        numbered_in_sequence(renumbered(s)),
        order_sorted(renumbered(s)),
        renumbered(s).len() == s.len(),
{
}

/// No two tools share an id.
pub open spec fn ids_unique(s: Seq<Tool>) -> bool {
    forall|i: int, j: int| 0 <= i < j < s.len() ==> s[i].id@ != s[j].id@
}

/// The id given to a new tool is used by no tool in the list.
pub proof fn law_next_id_is_fresh(tools: Seq<Tool>)
    ensures
        !has_id(tools, next_tool_id(tools)),
{
    lemma_least_free_exists(tools);
}

/// Adding a tool with the next id keeps ids unique, and the new tool is the one
/// found under its id.
pub proof fn law_add_keeps_ids_unique(tools: Seq<Tool>, t: Tool)
    requires
        ids_unique(tools),
        t.id@ == next_tool_id(tools),
    ensures
        ids_unique(tools.push(t)),
        position_of(tools.push(t), t.id@) == Some(tools.len() as int),
{
    law_next_id_is_fresh(tools);
    let n = tools.push(t);
    assert forall|i: int, j: int| 0 <= i < j < n.len() implies n[i].id@ != n[j].id@ by {
        if j == tools.len() {
            assert(n[i] == tools[i]);
        }
    }
    assert forall|j: int| 0 <= j < tools.len() implies n[j].id@ != t.id@ by {
        assert(n[j] == tools[j]);
    }
    lemma_position_of(n, t.id@, tools.len() as int);
}

/// After a tool is removed, no tool with its id is left.
pub proof fn law_removed_id_gone(tools: Seq<Tool>, id: Seq<char>)
    ensures
        !has_id(renumbered(without_id(tools, id)), id),
        position_of(renumbered(without_id(tools, id)), id) is None,
{
    let kept = without_id(tools, id);
    let r = renumbered(kept);
    if has_id(r, id) {
        let i = choose|i: int| 0 <= i < r.len() && #[trigger] r[i].id@ == id;
        kept.lemma_filter_pred(id_differs(id), i);
        assert(r[i].id == kept[i].id);
    }
}

/// Renumbering keeps ids unique.
pub proof fn law_renumber_keeps_ids(s: Seq<Tool>)
    requires
        ids_unique(s),
    ensures
        ids_unique(renumbered(s)),
{
}

/// Swapping two tools back restores a list numbered 1..N.
pub proof fn law_swap_twice(s: Seq<Tool>, a: int, b: int)
    requires
        numbered_in_sequence(s),
        0 <= a < s.len(),
        0 <= b < s.len(),
        a != b,
    ensures
        renumbered(swapped(renumbered(swapped(s, a, b)), a, b)) == s,
{
    let r = renumbered(swapped(renumbered(swapped(s, a, b)), a, b));
    assert forall|i: int| 0 <= i < s.len() implies #[trigger] r[i] == s[i] by {
        assert(s[i].order == i + 1);
    }
    assert(r =~= s);
}

/// Two tools hold the same entry: the same id, name, path, arguments and
/// icon (their orders may differ).
pub open spec fn same_entry(t: Tool, u: Tool) -> bool {
    &&& t.id == u.id
    &&& t.name == u.name
    &&& t.path == u.path
    &&& t.args == u.args
    &&& t.icon_path == u.icon_path
}

/// Renumbering changes nothing but the orders: the list keeps its length, the
/// tool at each position keeps its id, name, path, arguments and icon, and
/// its order becomes its position counted from 1.
pub proof fn law_renumber_changes_only_order(s: Seq<Tool>)
    requires
        s.len() <= u32::MAX,
    ensures
        renumbered(s).len() == s.len(),
        forall|i: int|
            0 <= i < s.len() ==> same_entry(#[trigger] renumbered(s)[i], s[i]) && renumbered(s)[i].order
                == i + 1,
{
}

/// Removing a tool keeps every other tool as it was, but for its order: each
/// tool left comes from the list, does not have the removed id, and holds
/// its position counted from 1 as order; each tool of the list with another
/// id is left.
pub proof fn law_remove_keeps_other_tools(s: Seq<Tool>, id: Seq<char>)
    requires
        s.len() <= u32::MAX,
    ensures
        forall|i: int|
            0 <= i < renumbered(without_id(s, id)).len() ==> {
                let t = #[trigger] renumbered(without_id(s, id))[i];
                &&& t.id@ != id
                &&& t.order == i + 1
                &&& exists|j: int| 0 <= j < s.len() && same_entry(t, s[j])
            },
        forall|j: int|
            0 <= j < s.len() && (#[trigger] s[j]).id@ != id ==> exists|i: int|
                0 <= i < renumbered(without_id(s, id)).len() && same_entry(
                    renumbered(without_id(s, id))[i],
                    s[j],
                ),
{
    let kept = without_id(s, id);
    let r = renumbered(kept);
    s.lemma_filter_len(id_differs(id));
    assert forall|i: int| 0 <= i < r.len() implies {
        let t = #[trigger] r[i];
        &&& t.id@ != id
        &&& t.order == i + 1
        &&& exists|j: int| 0 <= j < s.len() && same_entry(t, s[j])
    } by {
        s.lemma_filter_pred(id_differs(id), i);
        assert(kept.contains(kept[i]));
        s.lemma_filter_contains_rev(id_differs(id), kept[i]);
        let j = choose|j: int| 0 <= j < s.len() && s[j] == kept[i];
        assert(same_entry(r[i], s[j]));
    }
    assert forall|j: int| 0 <= j < s.len() && (#[trigger] s[j]).id@ != id implies exists|i: int|
        0 <= i < r.len() && same_entry(r[i], s[j]) by {
        s.lemma_filter_contains(id_differs(id), j);
        let i = choose|i: int| 0 <= i < kept.len() && kept[i] == s[j];
        assert(same_entry(r[i], s[j]));
    }
}

/// Swapping two positions exchanges their entries and leaves every other
/// entry where it was; only the orders are renumbered.
pub proof fn law_swap_exchanges_entries(s: Seq<Tool>, a: int, b: int)
    requires
        s.len() <= u32::MAX,
        0 <= a < s.len(),
        0 <= b < s.len(),
    ensures
        renumbered(swapped(s, a, b)).len() == s.len(),
        same_entry(renumbered(swapped(s, a, b))[a], s[b]),
        same_entry(renumbered(swapped(s, a, b))[b], s[a]),
        forall|k: int|
            0 <= k < s.len() && k != a && k != b ==> same_entry(
                #[trigger] renumbered(swapped(s, a, b))[k],
                s[k],
            ),
        forall|k: int| 0 <= k < s.len() ==> (#[trigger] renumbered(swapped(s, a, b))[k]).order == k + 1,
{
}

/// The largest order is at least the order of every tool, and some tool has
/// it (0 for an empty list).
pub proof fn law_max_order_is_largest(s: Seq<Tool>)
    ensures
        forall|i: int| 0 <= i < s.len() ==> (#[trigger] s[i]).order <= max_order(s),
        s.len() > 0 ==> exists|i: int| 0 <= i < s.len() && s[i].order == max_order(s),
        s.len() == 0 ==> max_order(s) == 0,
    decreases s.len(),
{
    if s.len() > 0 {
        let p = s.drop_last();
        law_max_order_is_largest(p);
        assert forall|i: int| 0 <= i < s.len() implies (#[trigger] s[i]).order <= max_order(s) by {
            if i < s.len() - 1 {
                assert(s[i] == p[i]);
            }
        }
        if s.last().order as nat >= max_order(p) {
            assert(s[s.len() - 1].order == max_order(s));
        } else {
            let i = choose|i: int| 0 <= i < p.len() && p[i].order == max_order(p);
            assert(s[i] == p[i]);
        }
    }
}

impl ToolsConfig {
    /// A copy of this configuration.
    pub fn duplicate(&self) -> (r: ToolsConfig)
        ensures
            r.language == self.language,
            r.tools@ == self.tools@,
    {
        let mut tools: Vec<Tool> = Vec::new();
        let mut i: usize = 0;
        while i < self.tools.len()
            invariant
                i <= self.tools.len(),
                tools@ == self.tools@.take(i as int),
            decreases self.tools.len() - i,
        {
            tools.push(self.tools[i].duplicate());
            i = i + 1;
            assert(tools@ =~= self.tools@.take(i as int));
        }
        assert(self.tools@.take(self.tools.len() as int) =~= self.tools@);
        ToolsConfig { language: self.language, tools }
    }

    /// Whether some tool has the id `id`.
    pub fn contains_id(&self, id: &str) -> (r: bool)
        ensures
            r == has_id(self.tools@, id@),
    {
        let mut i: usize = 0;
        while i < self.tools.len()
            invariant
                i <= self.tools.len(),
                forall|j: int| 0 <= j < i ==> self.tools@[j].id@ != id@,
            decreases self.tools.len() - i,
        {
            if same_text(self.tools[i].id.as_str(), id) {
                return true;
            }
            i = i + 1;
        }
        false
    }

    /// The first position of a tool with id `id`.
    pub fn index_of(&self, id: &str) -> (r: Option<usize>)
        ensures
            r matches Some(i) ==> i < self.tools.len(),
            r matches Some(i) ==> position_of(self.tools@, id@) == Some(i as int),
            r is None ==> position_of(self.tools@, id@) is None,
    {
        let mut i: usize = 0;
        while i < self.tools.len()
            invariant
                i <= self.tools.len(),
                forall|j: int| 0 <= j < i ==> self.tools@[j].id@ != id@,
            decreases self.tools.len() - i,
        {
            if same_text(self.tools[i].id.as_str(), id) {
                proof {
                    lemma_position_of(self.tools@, id@, i as int);
                }
                return Some(i);
            }
            i = i + 1;
        }
        None
    }

    /// The id `"tool_NNN"` with the least number that no tool uses yet.
    fn next_id(&self) -> (r: String)
        requires
            self.tools.len() < u32::MAX,
        ensures
            r@ == next_tool_id(self.tools@),
    {
        let mut n: u64 = 1;
        proof {
            lemma_least_free_exists(self.tools@);
        }
        while n <= self.tools.len() as u64 + 1
            invariant
                self.tools.len() < u32::MAX,
                1 <= n <= self.tools.len() + 2,
                forall|m: nat| 1 <= m < n ==> !id_number_free(self.tools@, m),
            decreases self.tools.len() + 2 - n,
        {
            let digits = zero_pad(n as u32, 3);
            let candidate = concatenate("tool_", digits.as_str());
            proof {
                reveal_strlit("tool_");
                assert(candidate@ =~= tool_id_text(n as nat));
            }
            if !self.contains_id(candidate.as_str()) {
                proof {
                    assert(is_least_free(self.tools@, n as nat));
                    lemma_least_free_exists(self.tools@);
                    lemma_least_free_unique(self.tools@, n as nat, least_free_number(self.tools@));
                }
                return candidate;
            }
            n = n + 1;
        }
        proof {
            lemma_taken_ids_bound(self.tools@, self.tools.len() as nat + 1);
        }
        String::new()
    }

    /// The largest order in the list, 0 when it is empty.
    pub fn largest_order(&self) -> (r: u32)
        ensures
            r == max_order(self.tools@),
            forall|i: int| 0 <= i < self.tools.len() ==> (#[trigger] self.tools@[i]).order <= r,
            self.tools.len() > 0 ==> exists|i: int| 0 <= i < self.tools.len() && self.tools@[i].order == r,
            self.tools.len() == 0 ==> r == 0,
    {
        let mut m: u32 = 0;
        let mut i: usize = 0;
        while i < self.tools.len()
            invariant
                i <= self.tools.len(),
                m == max_order(self.tools@.take(i as int)),
            decreases self.tools.len() - i,
        {
            assert(self.tools@.take(i + 1).drop_last() =~= self.tools@.take(i as int));
            if self.tools[i].order > m {
                m = self.tools[i].order;
            }
            i = i + 1;
        }
        assert(self.tools@.take(self.tools.len() as int) =~= self.tools@);
        proof {
            law_max_order_is_largest(self.tools@);
        }
        m
    }

    /// Adds a tool at the end of the list, with a fresh id and an order one
    /// more than the largest so far.
    pub fn add_tool(&mut self, name: String, path: String, args: String) -> (r: &Tool)
        requires
            old(self).tools.len() < u32::MAX,
            max_order(old(self).tools@) < u32::MAX,
        ensures
            final(self).language == old(self).language,
            final(self).tools.len() == old(self).tools.len() + 1,
            final(self).tools@.drop_last() == old(self).tools@,
            *r == final(self).tools@.last(),
            r.id@ == next_tool_id(old(self).tools@),
            r.name == name,
            r.path == path,
            r.args == args,
            r.icon_path@ == Seq::<char>::empty(),
            r.order == max_order(old(self).tools@) + 1,
            !has_id(old(self).tools@, r.id@),
            ids_unique(old(self).tools@) ==> ids_unique(final(self).tools@),
            forall|i: int| 0 <= i < old(self).tools.len() ==> (#[trigger] old(self).tools@[i]).order < r.order,
    {
        proof {
            law_next_id_is_fresh(self.tools@);
            law_max_order_is_largest(self.tools@);
        }
        let new_id = self.next_id();
        let next_order = self.largest_order() + 1;
        self.tools.push(
            Tool { id: new_id, name, path, args, icon_path: String::new(), order: next_order },
        );
        assert(self.tools@.drop_last() =~= old(self).tools@);
        proof {
            assert(self.tools@ =~= old(self).tools@.push(self.tools@.last()));
            if ids_unique(old(self).tools@) {
                law_add_keeps_ids_unique(old(self).tools@, self.tools@.last());
            }
        }
        let last = self.tools.len() - 1;
        &self.tools[last]
    }

    /// Sets the orders to 1..N following the list.
    fn renumber_order(&mut self)
        requires
            old(self).tools.len() <= u32::MAX,
        ensures
            final(self).language == old(self).language,
            final(self).tools@ == renumbered(old(self).tools@),
            final(self).tools.len() == old(self).tools.len(),
            forall|i: int|
                0 <= i < old(self).tools.len() ==> same_entry(#[trigger] final(self).tools@[i], old(self).tools@[i])
                    && final(self).tools@[i].order == i + 1,
    {
        proof {
            law_renumber_changes_only_order(old(self).tools@);
        }
        let mut i: usize = 0;
        while i < self.tools.len()
            invariant
                self.tools.len() == old(self).tools.len(),
                self.tools.len() <= u32::MAX,
                self.language == old(self).language,
                i <= self.tools.len(),
                forall|j: int| 0 <= j < i ==> self.tools@[j] == with_order(old(self).tools@[j], (j + 1) as u32),
                forall|j: int| i <= j < self.tools.len() ==> self.tools@[j] == old(self).tools@[j],
            decreases self.tools.len() - i,
        {
            let mut t = self.tools[i].duplicate();
            t.order = (i as u32) + 1;
            self.tools.set(i, t);
            i = i + 1;
        }
        assert(self.tools@ =~= renumbered(old(self).tools@));
    }

    /// Removes every tool with id `id`; the remaining ones are renumbered 1..N.
    pub fn remove_tool(&mut self, id: &str)
        requires
            old(self).tools.len() <= u32::MAX,
        ensures
            final(self).language == old(self).language,
            final(self).tools@ == renumbered(without_id(old(self).tools@, id@)),
            forall|i: int|
                0 <= i < final(self).tools.len() ==> {
                    let t = #[trigger] final(self).tools@[i];
                    &&& t.id@ != id@
                    &&& t.order == i + 1
                    &&& exists|j: int| 0 <= j < old(self).tools.len() && same_entry(t, old(self).tools@[j])
                },
            forall|j: int|
                0 <= j < old(self).tools.len() && (#[trigger] old(self).tools@[j]).id@ != id@ ==> exists|i: int|
                    0 <= i < final(self).tools.len() && same_entry(final(self).tools@[i], old(self).tools@[j]),
    {
        proof {
            law_remove_keeps_other_tools(old(self).tools@, id@);
        }
        let mut kept: Vec<Tool> = Vec::new();
        let mut i: usize = 0;
        let ghost keep = id_differs(id@);
        while i < self.tools.len()
            invariant
                self.tools@ == old(self).tools@,
                self.language == old(self).language,
                keep == id_differs(id@),
                i <= self.tools.len(),
                kept@ == self.tools@.take(i as int).filter(keep),
            decreases self.tools.len() - i,
        {
            proof {
                self.tools@.take(i as int).lemma_filter_push(self.tools@[i as int], keep);
                assert(self.tools@.take(i + 1) =~= self.tools@.take(i as int).push(self.tools@[i as int]));
            }
            if !same_text(self.tools[i].id.as_str(), id) {
                kept.push(self.tools[i].duplicate());
            }
            i = i + 1;
        }
        assert(self.tools@.take(self.tools.len() as int) =~= self.tools@);
        proof {
            self.tools@.lemma_filter_len(keep);
        }
        self.tools = kept;
        self.renumber_order();
    }

    /// Exchanges the tools at `index_a` and `index_b` and renumbers the list;
    /// does nothing unless both are in range and they differ.
    pub fn swap(&mut self, index_a: usize, index_b: usize)
        requires
            old(self).tools.len() <= u32::MAX,
        ensures
            final(self).language == old(self).language,
            (index_a < old(self).tools.len() && index_b < old(self).tools.len() && index_a != index_b)
                ==> final(self).tools@ == renumbered(swapped(old(self).tools@, index_a as int, index_b as int)),
            !(index_a < old(self).tools.len() && index_b < old(self).tools.len() && index_a != index_b)
                ==> final(self).tools@ == old(self).tools@,
            (index_a < old(self).tools.len() && index_b < old(self).tools.len() && index_a != index_b) ==> {
                &&& final(self).tools.len() == old(self).tools.len()
                &&& same_entry(final(self).tools@[index_a as int], old(self).tools@[index_b as int])
                &&& same_entry(final(self).tools@[index_b as int], old(self).tools@[index_a as int])
                &&& forall|k: int|
                    0 <= k < old(self).tools.len() && k != index_a && k != index_b ==> same_entry(
                        #[trigger] final(self).tools@[k],
                        old(self).tools@[k],
                    )
            },
    {
        proof {
            if index_a < old(self).tools.len() && index_b < old(self).tools.len() {
                law_swap_exchanges_entries(old(self).tools@, index_a as int, index_b as int);
            }
        }
        if index_a < self.tools.len() && index_b < self.tools.len() && index_a != index_b {
            let mut other = self.tools[index_b].duplicate();
            self.tools.set_and_swap(index_a, &mut other);
            self.tools.set(index_b, other);
            assert(self.tools@ =~= swapped(old(self).tools@, index_a as int, index_b as int));
            self.renumber_order();
        }
    }

    /// The first tool with id `id`.
    pub fn find(&self, id: &str) -> (r: Option<&Tool>)
        ensures
            position_of(self.tools@, id@) matches Some(i) ==> 0 <= i < self.tools.len(),
            r is None <==> position_of(self.tools@, id@) is None,
            position_of(self.tools@, id@) matches Some(i) ==> r == Some(&self.tools@[i]),
    {
        proof {
            lemma_position_of_some(self.tools@, id@);
        }
        match self.index_of(id) {
            Some(i) => Some(&self.tools[i]),
            None => None,
        }
    }

    /// The first tool with id `id`, to be changed in place.
    pub fn find_mut(&mut self, id: &str) -> (r: Option<&mut Tool>)
        ensures
            position_of(old(self).tools@, id@) matches Some(i) ==> 0 <= i < old(self).tools.len(),
            r is None <==> position_of(old(self).tools@, id@) is None,
            r is None ==> *final(self) == *old(self),
            position_of(old(self).tools@, id@) matches Some(i) ==> (r matches Some(t) && *t
                == old(self).tools@[i] && final(self).language == old(self).language
                && final(self).tools@ == old(self).tools@.update(i, *final(t))),
    {
        proof {
            lemma_position_of_some(self.tools@, id@);
        }
        match self.index_of(id) {
            Some(i) => Some(&mut self.tools[i]),
            None => None,
        }
    }

    /// The configuration to use after reading the tools file: the parsed
    /// contents with the tools sorted by order, or the empty configuration when
    /// the file was missing or could not be parsed.
    pub fn loaded(parsed: Option<ToolsConfig>) -> (r: ToolsConfig)
        ensures
            parsed is None ==> r.language == Language::Korean && r.tools@ == Seq::<Tool>::empty(),
            parsed matches Some(c) ==> r.language == c.language && r.tools.len() == c.tools.len()
                && stably_sorted_from(r.tools@, c.tools@),
    {
        match parsed {
            Some(c) => {
                let mut c = c;
                c.sort_by_order();
                c
            },
            None => ToolsConfig::default(),
        }
    }

    /// Sorts the tools by order, keeping tools of equal order in their
    /// current sequence.
    pub fn sort_by_order(&mut self)
        ensures
            final(self).language == old(self).language,
            final(self).tools.len() == old(self).tools.len(),
            stably_sorted_from(final(self).tools@, old(self).tools@),
    {
        let mut sorted: Vec<Tool> = Vec::new();
        let mut i: usize = 0;
        assert(self.tools@.take(0) =~= Seq::<Tool>::empty());
        assert forall|k: u32| #[trigger] sorted@.filter(order_is(k)) == self.tools@.take(0).filter(order_is(k)) by {
            assert(sorted@.filter(order_is(k)) =~= Seq::<Tool>::empty());
            assert(self.tools@.take(0).filter(order_is(k)) =~= Seq::<Tool>::empty());
        }
        while i < self.tools.len()
            invariant
                self.tools@ == old(self).tools@,
                self.language == old(self).language,
                i <= self.tools.len(),
                sorted.len() == i,
                stably_sorted_from(sorted@, self.tools@.take(i as int)),
            decreases self.tools.len() - i,
        {
            let x = self.tools[i].duplicate();
            let mut p: usize = 0;
            while p < sorted.len() && sorted[p].order <= x.order
                invariant
                    p <= sorted.len(),
                    forall|j: int| 0 <= j < p ==> sorted@[j].order <= x.order,
                decreases sorted.len() - p,
            {
                p = p + 1;
            }
            proof {
                if p < sorted.len() {
                    assert forall|j: int| p <= j < sorted.len() implies sorted@[j].order > x.order by {
                        assert(sorted@[p as int].order <= sorted@[j].order);
                    }
                }
                lemma_insert_sorted(sorted@, p as int, x);
                let s = self.tools@;
                assert(s.take(i + 1) =~= s.take(i as int).push(x));
                assert forall|k: u32| #[trigger] s.take(i + 1).filter(order_is(k))
                    == sorted@.insert(p as int, x).filter(order_is(k)) by {
                    s.take(i as int).lemma_filter_push(x, order_is(k));
                }
            }
            sorted.insert(p, x);
            i = i + 1;
        }
        assert(self.tools@.take(self.tools.len() as int) =~= self.tools@);
        self.tools = sorted;
    }
}

} // verus!
