//! The prompt histories (search strings, replacement strings, commands),
//! their browsing and completion, their file format, and the register of
//! cursor positions per file with its file format.
use vstd::prelude::*;
use vstd::utf8::{
    encode_utf8, decode_utf8, valid_utf8, encode_scalar, is_scalar, has_width_1_encoding,
    has_width_2_encoding, has_width_3_encoding, leading_byte_width_1, leading_byte_width_2,
    leading_byte_width_3, leading_byte_width_4, last_continuation_byte,
    second_last_continuation_byte, third_last_continuation_byte, is_ascii_chars,
};
use vstd::string::StringSliceAdditionalSpecFns;
use crate::bytes::spec_lossy;
use crate::definitions::MAX_SEARCH_HISTORY;
use crate::buffer::{OpenFileStruct, texts, anchors};
use sha2::Digest;

verus! {

/// Which of the prompt histories.
#[derive(Clone, Copy, Debug, PartialEq, Eq, Structural)]
pub enum HistoryKind {
    Search,
    Replace,
    Execute,
}

/// One history: its entries, oldest first, and the position of the entry
/// being browsed (equal to the number of entries at the bottom, below the
/// newest entry).
#[derive(Debug)]
pub struct HistoryList {
    pub items: Vec<String>,
    pub pos: usize,
}

/// The three prompt histories, and whether any of them changed since they
/// were loaded or saved.
#[derive(Debug)]
pub struct Histories {
    pub search: HistoryList,
    pub replace: HistoryList,
    pub execute: HistoryList,
    pub changed: bool,
}

/// The texts of the entries of a history.
pub open spec fn entries(l: HistoryList) -> Seq<Seq<char>> {
    l.items@.map_values(|s: String| s@)
}

/// The history of the given kind.
pub open spec fn history_of(h: Histories, which: HistoryKind) -> HistoryList {
    match which {
        HistoryKind::Search => h.search,
        HistoryKind::Replace => h.replace,
        HistoryKind::Execute => h.execute,
    }
}

/// Whether `h0` and `h1` have the same histories apart from the one of the
/// given kind.
pub open spec fn others_unchanged(h0: Histories, h1: Histories, which: HistoryKind) -> bool {
    &&& which != HistoryKind::Search ==> h1.search == h0.search
    &&& which != HistoryKind::Replace ==> h1.replace == h0.replace
    &&& which != HistoryKind::Execute ==> h1.execute == h0.execute
}

impl HistoryList {
    /// An empty history.
    pub fn new() -> (r: Self)
        ensures
            r.items@.len() == 0,
            r.pos == 0,
    {
        HistoryList { items: Vec::new(), pos: 0 }
    }
}

impl Histories {
    /// Three empty histories.
    pub fn new() -> (r: Self)
        ensures
            r.search.items@.len() == 0 && r.search.pos == 0,
            r.replace.items@.len() == 0 && r.replace.pos == 0,
            r.execute.items@.len() == 0 && r.execute.pos == 0,
            !r.changed,
    {
        Histories {
            search: HistoryList::new(),
            replace: HistoryList::new(),
            execute: HistoryList::new(),
            changed: false,
        }
    }
}

/// Empty all three histories.
pub fn history_init(h: &mut Histories)
    ensures
        final(h).search.items@.len() == 0 && final(h).search.pos == 0,
        final(h).replace.items@.len() == 0 && final(h).replace.pos == 0,
        final(h).execute.items@.len() == 0 && final(h).execute.pos == 0,
        final(h).changed == old(h).changed,
{
    h.search = HistoryList::new();
    h.replace = HistoryList::new();
    h.execute = HistoryList::new();
}

/// Move the browsing position of the given history to its bottom.
pub fn reset_history_pointer_for(h: &mut Histories, which: HistoryKind)
    ensures
        history_of(*final(h), which).items == history_of(*old(h), which).items,
        history_of(*final(h), which).pos == history_of(*old(h), which).items@.len(),
        others_unchanged(*old(h), *final(h), which),
        final(h).changed == old(h).changed,
{
    match which {
        HistoryKind::Search => h.search.pos = h.search.items.len(),
        HistoryKind::Replace => h.replace.pos = h.replace.items.len(),
        HistoryKind::Execute => h.execute.pos = h.execute.items.len(),
    }
}

/// Return whether the browsing position of the given history is at its
/// bottom.
pub fn history_is_at_bottom(h: &Histories, which: HistoryKind) -> (r: bool)
    ensures
        r == (history_of(*h, which).pos >= history_of(*h, which).items@.len()),
{
    match which {
        HistoryKind::Search => h.search.pos >= h.search.items.len(),
        HistoryKind::Replace => h.replace.pos >= h.replace.items.len(),
        HistoryKind::Execute => h.execute.pos >= h.execute.items.len(),
    }
}

/// The browsing position, no further than the bottom.
pub open spec fn clamped_pos(l: HistoryList) -> int {
    if l.pos > l.items@.len() {
        l.items@.len() as int
    } else {
        l.pos as int
    }
}

/// The position after moving one entry towards the newer entries.
pub open spec fn newer_pos(l: HistoryList) -> int {
    if clamped_pos(l) < l.items@.len() {
        clamped_pos(l) + 1
    } else {
        clamped_pos(l)
    }
}

/// Going one entry older and then one entry newer comes back to where the
/// browsing was, wherever that was below the oldest entry: `older` is the
/// history after the move to the older entry (same entries, position one
/// up), and the move back lands on the former position.
pub proof fn lemma_older_then_newer(l: HistoryList, older: HistoryList)
    requires
        clamped_pos(l) > 0,
        older.items == l.items,
        older.pos == clamped_pos(l) - 1,
    ensures
        newer_pos(older) == clamped_pos(l),
{
}

fn older_in(l: &mut HistoryList) -> (r: Option<String>)
    ensures
        final(l).items == old(l).items,
        clamped_pos(*old(l)) == 0 ==> r is None && final(l).pos == 0,
        clamped_pos(*old(l)) > 0 ==> final(l).pos == clamped_pos(*old(l)) - 1 && r == Some(
            old(l).items@[clamped_pos(*old(l)) - 1],
        ),
{
    let n = l.items.len();
    if l.pos > n {
        l.pos = n;
    }
    if l.pos == 0 {
        return None;
    }
    l.pos = l.pos - 1;
    Some(l.items[l.pos].clone())
}

fn newer_in(l: &mut HistoryList) -> (r: Option<String>)
    ensures
        final(l).items == old(l).items,
        final(l).pos == newer_pos(*old(l)),
        final(l).pos < old(l).items@.len() ==> r == Some(old(l).items@[final(l).pos as int]),
        final(l).pos >= old(l).items@.len() ==> r is None,
{
    let n = l.items.len();
    if l.pos > n {
        l.pos = n;
    }
    if l.pos < n {
        l.pos = l.pos + 1;
    }
    if l.pos < n {
        Some(l.items[l.pos].clone())
    } else {
        None
    }
}

/// Move one entry up in the given history (towards older entries) and
/// return that entry; at the top, return nothing.
pub fn older_history_item(h: &mut Histories, which: HistoryKind) -> (r: Option<String>)
    ensures
        ({
            let l0 = history_of(*old(h), which);
            let l1 = history_of(*final(h), which);
            &&& l1.items == l0.items
            &&& clamped_pos(l0) == 0 ==> r is None && l1.pos == 0
            &&& clamped_pos(l0) > 0 ==> l1.pos == clamped_pos(l0) - 1 && r == Some(
                l0.items@[clamped_pos(l0) - 1],
            )
        }),
        others_unchanged(*old(h), *final(h), which),
        final(h).changed == old(h).changed,
{
    match which {
        HistoryKind::Search => older_in(&mut h.search),
        HistoryKind::Replace => older_in(&mut h.replace),
        HistoryKind::Execute => older_in(&mut h.execute),
    }
}

/// Move one entry down in the given history (towards the bottom) and return
/// that entry; at the bottom, return nothing.
pub fn newer_history_item(h: &mut Histories, which: HistoryKind) -> (r: Option<String>)
    ensures
        ({
            let l0 = history_of(*old(h), which);
            let l1 = history_of(*final(h), which);
            &&& l1.items == l0.items
            &&& l1.pos == newer_pos(l0)
            &&& l1.pos < l0.items@.len() ==> r == Some(l0.items@[l1.pos as int])
            &&& l1.pos >= l0.items@.len() ==> r is None
        }),
        others_unchanged(*old(h), *final(h), which),
        final(h).changed == old(h).changed,
{
    match which {
        HistoryKind::Search => newer_in(&mut h.search),
        HistoryKind::Replace => newer_in(&mut h.replace),
        HistoryKind::Execute => newer_in(&mut h.execute),
    }
}

/// The index of the first entry equal to `t`, if any.
pub open spec fn first_index_of(v: Seq<Seq<char>>, t: Seq<char>, i: int) -> Option<int>
    decreases v.len() - i,
{
    if i < 0 || i >= v.len() {
        None
    } else if v[i] == t {
        Some(i)
    } else {
        first_index_of(v, t, i + 1)
    }
}

proof fn lemma_first_index_range(v: Seq<Seq<char>>, t: Seq<char>, i: int)
    ensures
        first_index_of(v, t, i) matches Some(k) ==> i <= k < v.len() && v[k] == t,
    decreases v.len() - i,
{
    if 0 <= i < v.len() && v[i] != t {
        lemma_first_index_range(v, t, i + 1);
    }
}

/// The entries of a history after `t` was added: when avoiding duplicates,
/// an earlier equal entry is removed first; when the history is full, its
/// oldest entry is dropped; `t` becomes the newest entry.
pub open spec fn entries_after_update(v: Seq<Seq<char>>, t: Seq<char>, avoid_duplicates: bool) -> Seq<Seq<char>> {
    let d = if avoid_duplicates && first_index_of(v, t, 0) is Some {
        v.remove(first_index_of(v, t, 0)->0)
    } else {
        v
    };
    let c = if d.len() >= MAX_SEARCH_HISTORY {
        d.subrange(1, d.len() as int)
    } else {
        d
    };
    c.push(t)
}

fn find_entry(items: &Vec<String>, t: &String) -> (r: Option<usize>)
    ensures
        match r {
            Some(i) => first_index_of(items@.map_values(|s: String| s@), t@, 0) == Some(i as int),
            None => first_index_of(items@.map_values(|s: String| s@), t@, 0) is None,
        },
{
    let ghost v = items@.map_values(|s: String| s@);
    let n = items.len();
    let mut i: usize = 0;
    while i < n
        invariant
            n == items@.len(),
            v == items@.map_values(|s: String| s@),
            i <= n,
            first_index_of(v, t@, 0) == first_index_of(v, t@, i as int),
        decreases n - i,
    {
        if items[i] == *t {
            return Some(i);
        }
        i += 1;
    }
    None
}

fn update_in(l: &mut HistoryList, text: &str, avoid_duplicates: bool)
    ensures
        entries(*final(l)) == entries_after_update(entries(*old(l)), text@, avoid_duplicates),
        final(l).pos == final(l).items@.len(),
{
    let t = text.to_owned();
    let ghost v0 = entries(*l);
    if avoid_duplicates {
        match find_entry(&l.items, &t) {
            Some(p) => {
                proof {
                    lemma_first_index_range(v0, t@, 0);
                }
                l.items.remove(p);
                assert(entries(*l) =~= v0.remove(p as int));
            },
            None => {},
        }
    }
    let ghost d = entries(*l);
    if l.items.len() >= MAX_SEARCH_HISTORY {
        l.items.remove(0);
        assert(entries(*l) =~= d.subrange(1, d.len() as int));
    }
    let ghost c = entries(*l);
    l.items.push(t);
    assert(entries(*l) =~= c.push(text@));
    l.pos = l.items.len();
}

/// Add `text` to the given history as its newest entry (first removing an
/// equal entry when avoiding duplicates, and the oldest entry when the
/// history is full), and move its browsing position to the bottom.
pub fn update_history(h: &mut Histories, which: HistoryKind, text: &str, avoid_duplicates: bool)
    ensures
        entries(history_of(*final(h), which)) == entries_after_update(
            entries(history_of(*old(h), which)),
            text@,
            avoid_duplicates,
        ),
        history_of(*final(h), which).pos == history_of(*final(h), which).items@.len(),
        others_unchanged(*old(h), *final(h), which),
        final(h).changed,
{
    match which {
        HistoryKind::Search => update_in(&mut h.search, text, avoid_duplicates),
        HistoryKind::Replace => update_in(&mut h.replace, text, avoid_duplicates),
        HistoryKind::Execute => update_in(&mut h.execute, text, avoid_duplicates),
    }
    h.changed = true;
}

/// Whether the entry `item` completes the text `s` whose first characters
/// are `prefix`: it starts with those characters and differs from `s`.
pub open spec fn completes(item: Seq<char>, prefix: Seq<char>, s: Seq<char>) -> bool {
    prefix.len() <= item.len() && item.subrange(0, prefix.len() as int) == prefix && item != s
}

/// The highest index below `i` and at or above `stop` of an entry that
/// completes `s`.
pub open spec fn search_down(v: Seq<Seq<char>>, i: int, stop: int, prefix: Seq<char>, s: Seq<char>) -> Option<int>
    decreases i - stop,
{
    if i <= stop || i > v.len() {
        None
    } else if completes(v[i - 1], prefix, s) {
        Some(i - 1)
    } else {
        search_down(v, i - 1, stop, prefix, s)
    }
}

proof fn lemma_search_down_range(v: Seq<Seq<char>>, i: int, stop: int, prefix: Seq<char>, s: Seq<char>)
    ensures
        search_down(v, i, stop, prefix, s) matches Some(k) ==> stop <= k < i && k < v.len(),
    decreases i - stop,
{
    if !(i <= stop || i > v.len()) && !completes(v[i - 1], prefix, s) {
        lemma_search_down_range(v, i - 1, stop, prefix, s);
    }
}

/// Where completing `s` (by its first `len` characters) in a history browsed
/// at `here` lands: the nearest completing entry above `here`, else the
/// lowest-placed completing entry below it, else nowhere.
pub open spec fn completion_index(v: Seq<Seq<char>>, here: int, s: Seq<char>, len: int) -> Option<int> {
    let prefix = s.subrange(0, if len < s.len() { len } else { s.len() as int });
    match search_down(v, here, 0, prefix, s) {
        Some(i) => Some(i),
        None => search_down(v, v.len() as int, here + 1, prefix, s),
    }
}

proof fn lemma_search_down_finds_highest(v: Seq<Seq<char>>, i: int, stop: int, prefix: Seq<char>, s: Seq<char>)
    requires
        0 <= stop,
        i <= v.len(),
    ensures
        search_down(v, i, stop, prefix, s) is None <==> forall|j: int| stop <= j < i ==> !completes(v[j], prefix, s),
        search_down(v, i, stop, prefix, s) matches Some(k) ==> stop <= k < i && completes(v[k], prefix, s) && forall|
            j: int,
        | k < j < i ==> !completes(v[j], prefix, s),
    decreases i - stop,
{
    if i > stop && !completes(v[i - 1], prefix, s) {
        lemma_search_down_finds_highest(v, i - 1, stop, prefix, s);
    }
}

/// Whether the entry `item` starts with the first `len` characters of `s`
/// (all of `s` where it is shorter) and is not `s` itself.
pub open spec fn starts_like(item: Seq<char>, s: Seq<char>, len: int) -> bool {
    let n = if len < s.len() { len } else { s.len() as int };
    n <= item.len() && (forall|k: int| 0 <= k < n ==> item[k] == s[k]) && item != s
}

proof fn lemma_starts_like(item: Seq<char>, s: Seq<char>, len: int)
    requires
        0 <= len,
    ensures
        starts_like(item, s, len) == completes(
            item,
            s.subrange(0, if len < s.len() { len } else { s.len() as int }),
            s,
        ),
{
    let n = if len < s.len() { len } else { s.len() as int };
    let p = s.subrange(0, n);
    if starts_like(item, s, len) {
        assert(item.subrange(0, n) =~= p);
    }
    if completes(item, p, s) {
        assert forall|k: int| 0 <= k < n implies item[k] == s[k] by {
            assert(item.subrange(0, n)[k] == p[k]);
        }
    }
}

/// Completing from a history: where an entry above the browsing position
/// `here` starts like `s` (by its first `len` characters) and differs from
/// it, completion takes the nearest such entry above; where none above
/// does, it wraps around and takes the newest-placed such entry below
/// `here`; and only where no entry but the one at `here` does, it finds
/// nothing.
pub proof fn lemma_completion_order(v: Seq<Seq<char>>, here: int, s: Seq<char>, len: int)
    requires
        0 <= here <= v.len(),
        0 <= len,
    ensures
        (exists|i: int| 0 <= i < here && #[trigger] starts_like(v[i], s, len)) ==> (completion_index(
            v,
            here,
            s,
            len,
        ) matches Some(k) && 0 <= k < here && starts_like(v[k], s, len) && forall|j: int|
            k < j < here ==> !#[trigger] starts_like(v[j], s, len)),
        (forall|i: int| 0 <= i < here ==> !#[trigger] starts_like(v[i], s, len)) && (exists|i: int|
            here < i < v.len() && #[trigger] starts_like(v[i], s, len)) ==> (completion_index(
            v,
            here,
            s,
            len,
        ) matches Some(k) && here < k < v.len() && starts_like(v[k], s, len) && forall|j: int|
            k < j < v.len() ==> !#[trigger] starts_like(v[j], s, len)),
        (forall|i: int| 0 <= i < v.len() && i != here ==> !#[trigger] starts_like(v[i], s, len))
            ==> completion_index(v, here, s, len) is None,
{
    let n = if len < s.len() { len } else { s.len() as int };
    let p = s.subrange(0, n);
    assert forall|i: int| #[trigger] starts_like(v[i], s, len) == completes(v[i], p, s) by {
        lemma_starts_like(v[i], s, len);
    }
    lemma_search_down_finds_highest(v, here, 0, p, s);
    lemma_search_down_finds_highest(v, v.len() as int, here + 1, p, s);
    if exists|i: int| 0 <= i < here && #[trigger] starts_like(v[i], s, len) {
        let i = choose|i: int| 0 <= i < here && #[trigger] starts_like(v[i], s, len);
        assert(completes(v[i], p, s));
    }
    if (forall|i: int| 0 <= i < here ==> !#[trigger] starts_like(v[i], s, len)) && (exists|i: int|
        here < i < v.len() && #[trigger] starts_like(v[i], s, len)) {
        let i = choose|i: int| here < i < v.len() && #[trigger] starts_like(v[i], s, len);
        assert(completes(v[i], p, s));
        assert forall|j: int| 0 <= j < here implies !completes(v[j], p, s) by {
            assert(!starts_like(v[j], s, len));
        }
    }
    if forall|i: int| 0 <= i < v.len() && i != here ==> !#[trigger] starts_like(v[i], s, len) {
        assert forall|j: int| 0 <= j < here implies !completes(v[j], p, s) by {
            assert(!starts_like(v[j], s, len));
        }
        assert forall|j: int| here + 1 <= j < v.len() implies !completes(v[j], p, s) by {
            assert(!starts_like(v[j], s, len));
        }
    }
}

fn entry_completes(item: &String, prefix: &str, s: &String) -> (r: bool)
    ensures
        r == completes(item@, prefix@, s@),
{
    let n = item.as_str().unicode_len();
    let m = prefix.unicode_len();
    if m > n {
        return false;
    }
    let mut i: usize = 0;
    while i < m
        invariant
            n == item@.len(),
            m == prefix@.len(),
            m <= n,
            i <= m,
            forall|j: int| 0 <= j < i ==> item@[j] == prefix@[j],
        decreases m - i,
    {
        if item.as_str().get_char(i) != prefix.get_char(i) {
            assert(item@.subrange(0, m as int)[i as int] != prefix@[i as int]);
            return false;
        }
        i += 1;
    }
    assert(item@.subrange(0, m as int) =~= prefix@);
    *item != *s
}

fn search_down_exec(items: &Vec<String>, from: usize, stop: usize, prefix: &str, s: &String) -> (r: Option<usize>)
    requires
        from <= items@.len(),
    ensures
        match r {
            Some(i) => search_down(items@.map_values(|x: String| x@), from as int, stop as int, prefix@, s@)
                == Some(i as int),
            None => search_down(items@.map_values(|x: String| x@), from as int, stop as int, prefix@, s@) is None,
        },
{
    let ghost v = items@.map_values(|x: String| x@);
    let mut i = from;
    while i > stop
        invariant
            v == items@.map_values(|x: String| x@),
            i <= items@.len(),
            search_down(v, i as int, stop as int, prefix@, s@) == search_down(v, from as int, stop as int, prefix@, s@),
        decreases i,
    {
        if entry_completes(&items[i - 1], prefix, s) {
            return Some(i - 1);
        }
        i -= 1;
    }
    None
}

fn complete_in(l: &mut HistoryList, string: &str, len: usize) -> (r: String)
    requires
        old(l).pos <= old(l).items@.len(),
    ensures
        final(l).items == old(l).items,
        match completion_index(entries(*old(l)), old(l).pos as int, string@, len as int) {
            Some(i) => final(l).pos == i && r == old(l).items@[i],
            None => final(l).pos == old(l).pos && r@ == string@,
        },
{
    let s = string.to_owned();
    let count = string.unicode_len();
    let safe_len = if len < count {
        len
    } else {
        count
    };
    let prefix = string.substring_char(0, safe_len);
    let here = l.pos;
    let n = l.items.len();
    proof {
        lemma_search_down_range(entries(*l), here as int, 0, prefix@, s@);
        lemma_search_down_range(entries(*l), n as int, here + 1, prefix@, s@);
    }
    match search_down_exec(&l.items, here, 0, prefix, &s) {
        Some(i) => {
            l.pos = i;
            return l.items[i].clone();
        },
        None => {},
    }
    if here < n {
        match search_down_exec(&l.items, n, here + 1, prefix, &s) {
            Some(i) => {
                l.pos = i;
                return l.items[i].clone();
            },
            None => {},
        }
    }
    s
}

/// Complete `string` (by its first `len` characters) from the given history:
/// return the nearest older entry that starts with those characters and differs
/// from `string`, else the newest such entry below the browsing position,
/// moving the browsing position there; without such an entry, return
/// `string` itself.
pub fn get_history_completion(h: &mut Histories, which: HistoryKind, string: &str, len: usize) -> (r: String)
    requires
        history_of(*old(h), which).pos <= history_of(*old(h), which).items@.len(),
    ensures
        history_of(*final(h), which).items == history_of(*old(h), which).items,
        match completion_index(
            entries(history_of(*old(h), which)),
            history_of(*old(h), which).pos as int,
            string@,
            len as int,
        ) {
            Some(i) => history_of(*final(h), which).pos == i && r == history_of(*old(h), which).items@[i],
            None => history_of(*final(h), which).pos == history_of(*old(h), which).pos && r@ == string@,
        },
        others_unchanged(*old(h), *final(h), which),
        final(h).changed == old(h).changed,
{
    match which {
        HistoryKind::Search => complete_in(&mut h.search, string, len),
        HistoryKind::Replace => complete_in(&mut h.replace, string, len),
        HistoryKind::Execute => complete_in(&mut h.execute, string, len),
    }
}

/// A remembered cursor position: the file's full path, the line and column
/// (counting from one), and the line numbers of the anchors in the file
/// (each followed by a space).
#[derive(Clone, Debug)]
pub struct PositionRecord {
    pub filename: String,
    pub linenumber: isize,
    pub columnnumber: isize,
    pub anchors: Option<String>,
}

impl PositionRecord {
    /// A copy of this record.
    pub fn duplicate(&self) -> (r: PositionRecord)
        ensures
            r == *self,
    {
        PositionRecord {
            filename: self.filename.clone(),
            linenumber: self.linenumber,
            columnnumber: self.columnnumber,
            anchors: match &self.anchors {
                Some(a) => Some(a.clone()),
                None => None,
            },
        }
    }
}

/// A record as plain values.
pub open spec fn record_view(r: PositionRecord) -> (Seq<char>, isize, isize, Option<Seq<char>>) {
    (
        r.filename@,
        r.linenumber,
        r.columnnumber,
        match r.anchors {
            Some(a) => Some(a@),
            None => None,
        },
    )
}

/// Whether a path starts at index `i` of `b`: a slash, two backslashes, or
/// a drive letter with a colon and a (back)slash.
pub open spec fn path_starts_at(b: Seq<u8>, i: int) -> bool {
    ||| b[i] == 0x2F
    ||| i + 1 < b.len() && b[i] == 0x5C && b[i + 1] == 0x5C
    ||| i + 2 < b.len() && ((0x41 <= b[i] <= 0x5A) || (0x61 <= b[i] <= 0x7A)) && b[i + 1] == 0x3A
        && (b[i + 2] == 0x5C || b[i + 2] == 0x2F)
}

/// The first index of `b`, from `i` on, where a path starts.
pub open spec fn path_start_from(b: Seq<u8>, i: int) -> Option<int>
    decreases b.len() - i,
{
    if i < 0 || i >= b.len() {
        None
    } else if path_starts_at(b, i) {
        Some(i)
    } else {
        path_start_from(b, i + 1)
    }
}

proof fn lemma_path_start_range(b: Seq<u8>, i: int)
    ensures
        path_start_from(b, i) matches Some(k) ==> i <= k < b.len(),
    decreases b.len() - i,
{
    if !(i < 0 || i >= b.len()) && !path_starts_at(b, i) {
        lemma_path_start_range(b, i + 1);
    }
}

/// An optional index as an optional integer.
pub open spec fn opt_int(o: Option<usize>) -> Option<int> {
    match o {
        Some(i) => Some(i as int),
        None => None,
    }
}

/// Return the index in a line of the positions register where the path
/// begins (what comes before it are the anchors).
pub fn position_path_start(buf: &[u8]) -> (r: Option<usize>)
    ensures
        opt_int(r) == path_start_from(buf@, 0),
{
    let n = buf.len();
    let mut i: usize = 0;
    while i < n
        invariant
            n == buf@.len(),
            i <= n,
            path_start_from(buf@, i as int) == path_start_from(buf@, 0),
        decreases n - i,
    {
        let c = buf[i];
        if c == 0x2F {
            return Some(i);
        }
        if n - i > 1 && c == 0x5C && buf[i + 1] == 0x5C {
            return Some(i);
        }
        if n - i > 2 && ((0x41 <= c && c <= 0x5A) || (0x61 <= c && c <= 0x7A)) && buf[i + 1] == 0x3A
            && (buf[i + 2] == 0x5C || buf[i + 2] == 0x2F) {
            return Some(i);
        }
        i += 1;
    }
    None
}

/// `b` with each NUL byte turned into a line feed.
pub open spec fn nul_to_lf(b: Seq<u8>) -> Seq<u8> {
    b.map_values(|x: u8| if x == 0 { 0x0Au8 } else { x })
}

pub fn recode_nul_to_lf(b: &[u8]) -> (r: Vec<u8>)
    ensures
        r@ == nul_to_lf(b@),
{
    let mut v: Vec<u8> = Vec::new();
    let n = b.len();
    let mut i: usize = 0;
    while i < n
        invariant
            n == b@.len(),
            i <= n,
            v@ == nul_to_lf(b@.subrange(0, i as int)),
        decreases n - i,
    {
        let x = b[i];
        v.push(if x == 0 { 0x0Au8 } else { x });
        i += 1;
        assert(v@ =~= nul_to_lf(b@.subrange(0, i as int)));
    }
    assert(b@.subrange(0, n as int) =~= b@);
    v
}

/// Whether `c` is white space (the Unicode `White_Space` property).
pub open spec fn is_ws(c: char) -> bool {
    crate::chars::is_whitespace_cp(c as u32 as int)
}

fn ws_char(c: char) -> (r: bool)
    ensures
        r == is_ws(c),
{
    let cp = c as u32;
    (0x09 <= cp && cp <= 0x0D) || cp == 0x20 || cp == 0x85 || cp == 0xA0 || cp == 0x1680 || (
    0x2000 <= cp && cp <= 0x200A) || cp == 0x2028 || cp == 0x2029 || cp == 0x202F || cp == 0x205F
        || cp == 0x3000
}

/// The index of the first character at or after `i` that is not white space.
pub open spec fn lead_end(s: Seq<char>, i: int) -> int
    decreases s.len() - i,
{
    if 0 <= i < s.len() && is_ws(s[i]) {
        lead_end(s, i + 1)
    } else {
        i
    }
}

/// The end of `s[..j]` without its trailing white space.
pub open spec fn trail_end(s: Seq<char>, j: int) -> int
    decreases j,
{
    if 0 < j <= s.len() && is_ws(s[j - 1]) {
        trail_end(s, j - 1)
    } else {
        j
    }
}

/// `s` without leading and trailing white space.
pub open spec fn trimmed(s: Seq<char>) -> Seq<char> {
    let a = lead_end(s, 0);
    let b = trail_end(s, s.len() as int);
    if a < b {
        s.subrange(a, b)
    } else {
        Seq::<char>::empty()
    }
}

/// Whether `s` consists of decimal digits only.
pub open spec fn all_digits(s: Seq<char>) -> bool {
    forall|i: int| 0 <= i < s.len() ==> '0' <= #[trigger] s[i] <= '9'
}

/// The value of the decimal digits `s`.
pub open spec fn digits_value(s: Seq<char>) -> int
    decreases s.len(),
{
    if s.len() == 0 {
        0
    } else {
        digits_value(s.drop_last()) * 10 + (s.last() as int - '0' as int)
    }
}

/// The number that `s` spells: optionally a sign, then one or more decimal
/// digits, and nothing else.
pub open spec fn spelled_int(s: Seq<char>) -> Option<int> {
    if s.len() > 0 && (s[0] == '+' || s[0] == '-') {
        let d = s.subrange(1, s.len() as int);
        if d.len() > 0 && all_digits(d) {
            Some(
                if s[0] == '-' {
                    -digits_value(d)
                } else {
                    digits_value(d)
                },
            )
        } else {
            None
        }
    } else if s.len() > 0 && all_digits(s) {
        Some(digits_value(s))
    } else {
        None
    }
}

/// The `isize` that `s`, without surrounding white space, spells.
pub open spec fn spec_parse_isize(s: Seq<char>) -> Option<isize> {
    match spelled_int(trimmed(s)) {
        Some(v) => if isize::MIN <= v <= isize::MAX {
            Some(v as isize)
        } else {
            None
        },
        None => None,
    }
}

proof fn lemma_digits_value_grows(s: Seq<char>, k: int)
    requires
        all_digits(s),
        0 <= k <= s.len(),
    ensures
        digits_value(s) >= digits_value(s.subrange(0, k)) >= 0,
    decreases s.len(),
{
    if s.len() > 0 {
        if k == s.len() {
            assert(s.subrange(0, k) =~= s);
            lemma_digits_value_grows(s.drop_last(), k - 1);
            assert(s.drop_last().subrange(0, k - 1) =~= s.drop_last());
        } else {
            lemma_digits_value_grows(s.drop_last(), k);
            assert(s.drop_last().subrange(0, k) =~= s.subrange(0, k));
        }
    } else {
        assert(s.subrange(0, k) =~= s);
    }
}

/// Parse the decimal digits `t[from..to]` into their value, or fail when it
/// exceeds `limit`.
fn digits_upto(t: &str, from: usize, to: usize, limit: u64) -> (r: Option<u64>)
    requires
        from <= to <= t@.len(),
        all_digits(t@.subrange(from as int, to as int)),
    ensures
        match r {
            Some(v) => v == digits_value(t@.subrange(from as int, to as int)) && v <= limit,
            None => digits_value(t@.subrange(from as int, to as int)) > limit,
        },
{
    let ghost d = t@.subrange(from as int, to as int);
    let mut v: u64 = 0;
    let mut i = from;
    while i < to
        invariant
            from <= i <= to <= t@.len(),
            d == t@.subrange(from as int, to as int),
            all_digits(d),
            v == digits_value(t@.subrange(from as int, i as int)),
            v <= limit,
        decreases to - i,
    {
        let c = t.get_char(i);
        assert(c == d[i - from]);
        let dig = (c as u32 - 48) as u64;
        let ghost prev = t@.subrange(from as int, i as int);
        let ghost next = t@.subrange(from as int, i + 1);
        assert(next.drop_last() =~= prev);
        assert(next.last() == c);
        if dig > limit || v > (limit - dig) / 10 {
            proof {
                assert(v * 10 + dig > limit) by (nonlinear_arith)
                    requires
                        dig > limit || v > (limit - dig) / 10,
                        dig <= 9,
                ;
                lemma_digits_value_grows(d, i + 1 - from);
                assert(d.subrange(0, i + 1 - from) =~= next);
            }
            return None;
        }
        proof {
            assert(v * 10 + dig <= limit) by (nonlinear_arith)
                requires
                    dig <= limit,
                    v <= (limit - dig) / 10,
            ;
        }
        v = v * 10 + dig;
        i += 1;
    }
    Some(v)
}

proof fn lemma_trail_end_le(s: Seq<char>, j: int)
    ensures
        trail_end(s, j) <= j,
    decreases j,
{
    if 0 < j <= s.len() && is_ws(s[j - 1]) {
        lemma_trail_end_le(s, j - 1);
    }
}

fn all_digits_in(t: &str, from: usize, to: usize) -> (r: bool)
    requires
        from <= to <= t@.len(),
    ensures
        r == all_digits(t@.subrange(from as int, to as int)),
{
    let mut i = from;
    while i < to
        invariant
            from <= i <= to <= t@.len(),
            forall|j: int| from <= j < i ==> '0' <= #[trigger] t@[j] <= '9',
        decreases to - i,
    {
        let c = t.get_char(i);
        if !('0' <= c && c <= '9') {
            assert(t@.subrange(from as int, to as int)[i - from] == c);
            return false;
        }
        i += 1;
    }
    assert forall|k: int| 0 <= k < to - from implies '0' <= #[trigger] t@.subrange(from as int, to as int)[k] <= '9' by {
        assert(t@.subrange(from as int, to as int)[k] == t@[from + k]);
    }
    true
}

/// Parse `t`, without surrounding white space, as an `isize`: an optional
/// sign followed by decimal digits that fit.
pub fn parse_isize(t: &str) -> (r: Option<isize>)
    ensures
        r == spec_parse_isize(t@),
{
    let n = t.unicode_len();
    let mut a: usize = 0;
    while a < n && ws_char(t.get_char(a))
        invariant
            n == t@.len(),
            a <= n,
            lead_end(t@, a as int) == lead_end(t@, 0),
        decreases n - a,
    {
        a += 1;
    }
    let mut b: usize = n;
    while b > a && ws_char(t.get_char(b - 1))
        invariant
            n == t@.len(),
            a <= b <= n,
            a < n ==> !is_ws(t@[a as int]),
            a < n ==> b > a,
            trail_end(t@, b as int) == trail_end(t@, n as int),
        decreases b,
    {
        b -= 1;
    }
    proof {
        assert(lead_end(t@, a as int) == a);
        lemma_trail_end_le(t@, n as int);
        if a < b {
            assert(trail_end(t@, b as int) == b);
            assert(trimmed(t@) == t@.subrange(a as int, b as int));
        } else {
            assert(trimmed(t@) =~= Seq::<char>::empty());
        }
    }
    if a == b {
        return None;
    }
    let ghost tr = t@.subrange(a as int, b as int);
    let first = t.get_char(a);
    assert(first == tr[0]);
    let limit_pos: u64 = isize::MAX as u64;
    if first == '+' || first == '-' {
        assert(tr.subrange(1, tr.len() as int) =~= t@.subrange(a + 1, b as int));
        if b - a == 1 || !all_digits_in(t, a + 1, b) {
            return None;
        }
        let limit = if first == '-' {
            limit_pos + 1
        } else {
            limit_pos
        };
        match digits_upto(t, a + 1, b, limit) {
            Some(v) => {
                if first == '-' {
                    if v == limit_pos + 1 {
                        Some(isize::MIN)
                    } else {
                        Some(-(v as isize))
                    }
                } else {
                    Some(v as isize)
                }
            },
            None => None,
        }
    } else {
        if !all_digits_in(t, a, b) {
            return None;
        }
        match digits_upto(t, a, b, limit_pos) {
            Some(v) => Some(v as isize),
            None => None,
        }
    }
}

/// The index of the last space in `s[..end]`.
pub open spec fn last_space_before(s: Seq<char>, end: int) -> Option<int>
    decreases end,
{
    if end <= 0 || end > s.len() {
        None
    } else if s[end - 1] == ' ' {
        Some(end - 1)
    } else {
        last_space_before(s, end - 1)
    }
}

proof fn lemma_last_space_range(s: Seq<char>, end: int)
    ensures
        last_space_before(s, end) matches Some(k) ==> 0 <= k < end && s[k] == ' ',
    decreases end,
{
    if !(end <= 0 || end > s.len()) && s[end - 1] != ' ' {
        lemma_last_space_range(s, end - 1);
    }
}

fn last_space(t: &str, end: usize) -> (r: Option<usize>)
    requires
        end <= t@.len(),
    ensures
        opt_int(r) == last_space_before(t@, end as int),
{
    let mut i = end;
    while i > 0
        invariant
            i <= end <= t@.len(),
            last_space_before(t@, i as int) == last_space_before(t@, end as int),
        decreases i,
    {
        if t.get_char(i - 1) == ' ' {
            return Some(i - 1);
        }
        i -= 1;
    }
    None
}

/// What a line of the positions register holds: the bytes before the path
/// are the anchors; after the path come the line and the column, each
/// after a space (the path itself may hold spaces; NUL bytes in it stand
/// for line feeds).  Nothing when there is no path, no two spaces, an empty
/// path, or a number that does not parse.
pub open spec fn spec_parse_record(buf: Seq<u8>) -> Option<(Seq<char>, isize, isize, Option<Seq<char>>)> {
    match path_start_from(buf, 0) {
        None => None,
        Some(ps) => {
            let pap = text_of_line(nul_to_lf(buf.subrange(ps, buf.len() as int)));
            match last_space_before(pap, pap.len() as int) {
                None => None,
                Some(cs) => match last_space_before(pap, cs) {
                    None => None,
                    Some(ls) => if ls == 0 {
                        None
                    } else {
                        match (
                            spec_parse_isize(pap.subrange(ls + 1, cs)),
                            spec_parse_isize(pap.subrange(cs + 1, pap.len() as int)),
                        ) {
                            (Some(l), Some(c)) => Some(
                                (
                                    pap.subrange(0, ls),
                                    l,
                                    c,
                                    if ps > 0 {
                                        Some(text_of_line(buf.subrange(0, ps)))
                                    } else {
                                        None
                                    },
                                ),
                            ),
                            _ => None,
                        }
                    },
                },
            }
        },
    }
}

/// An optional record as plain values.
pub open spec fn opt_record_view(r: Option<PositionRecord>) -> Option<(Seq<char>, isize, isize, Option<Seq<char>>)> {
    match r {
        Some(rec) => Some(record_view(rec)),
        None => None,
    }
}

/// Parse one line of the positions register.
pub fn parse_position_record(buf: &[u8]) -> (r: Option<PositionRecord>)
    ensures
        opt_record_view(r) == spec_parse_record(buf@),
{
    proof {
        lemma_path_start_range(buf@, 0);
    }
    let ps = match position_path_start(buf) {
        Some(p) => p,
        None => return None,
    };
    let n = buf.len();
    let pap_bytes = recode_nul_to_lf(crate::bytes::subvec(buf, ps, n).as_slice());
    let pap = crate::bytes::bytes_to_string(pap_bytes.as_slice());
    assert(pap@ == text_of_line(pap_bytes@));
    let t = pap.as_str();
    let m = t.unicode_len();
    let cs = match last_space(t, m) {
        Some(c) => c,
        None => return None,
    };
    proof {
        lemma_last_space_range(t@, m as int);
    }
    let ls = match last_space(t, cs) {
        Some(l) => l,
        None => return None,
    };
    proof {
        lemma_last_space_range(t@, cs as int);
    }
    if ls == 0 {
        return None;
    }
    let line = match parse_isize(t.substring_char(ls + 1, cs)) {
        Some(v) => v,
        None => return None,
    };
    let col = match parse_isize(t.substring_char(cs + 1, m)) {
        Some(v) => v,
        None => return None,
    };
    let anchors = if ps > 0 {
        let a = crate::bytes::bytes_to_string(crate::bytes::subvec(buf, 0, ps).as_slice());
        assert(a@ == text_of_line(buf@.subrange(0, ps as int)));
        Some(a)
    } else {
        None
    };
    let filename = t.substring_char(0, ls).to_owned();
    Some(PositionRecord { filename, linenumber: line, columnnumber: col, anchors })
}

/// The index of the first line feed at or after `i` in `b`, or the end.
pub open spec fn line_end(b: Seq<u8>, i: int) -> int
    decreases b.len() - i,
{
    if i < 0 || i >= b.len() {
        b.len() as int
    } else if b[i] == 0x0A {
        i
    } else {
        line_end(b, i + 1)
    }
}

proof fn lemma_line_end_range(b: Seq<u8>, i: int)
    requires
        0 <= i,
    ensures
        i <= b.len() ==> i <= line_end(b, i) <= b.len(),
        line_end(b, i) < b.len() ==> b[line_end(b, i)] == 0x0A,
        forall|k: int| i <= k < line_end(b, i) ==> b[k] != 0x0A,
    decreases b.len() - i,
{
    if i < b.len() && b[i] != 0x0A {
        lemma_line_end_range(b, i + 1);
    }
}

/// The records that the positions register `b` holds from byte `start` on,
/// when `count` lines were read before: at most 200 lines are read, reading
/// stops at an empty line (or a last line of a single byte), and lines that
/// do not parse are skipped.
pub open spec fn register_records(b: Seq<u8>, start: int, count: int) -> Seq<(Seq<char>, isize, isize, Option<Seq<char>>)>
    decreases b.len() - start,
{
    if count >= 200 || start < 0 || start >= b.len() {
        Seq::empty()
    } else {
        let e = line_end(b, start);
        let n = if e < b.len() {
            e - start + 1
        } else {
            b.len() - start
        };
        if n <= 1 || e < start {
            Seq::empty()
        } else {
            let rest = register_records(b, start + n, count + 1);
            match spec_parse_record(b.subrange(start, e)) {
                Some(r) => seq![r] + rest,
                None => rest,
            }
        }
    }
}

/// The records of a list as plain values.
pub open spec fn records_view(v: Seq<PositionRecord>) -> Seq<(Seq<char>, isize, isize, Option<Seq<char>>)> {
    v.map_values(|r: PositionRecord| record_view(r))
}

/// Read the records from the contents `bytes` of the positions register.
pub fn records_from_position_bytes(bytes: &[u8]) -> (r: Vec<PositionRecord>)
    ensures
        records_view(r@) == register_records(bytes@, 0, 0),
{
    let n = bytes.len();
    let mut recs: Vec<PositionRecord> = Vec::new();
    let mut start: usize = 0;
    let mut count: usize = 0;
    while count < 200 && start < n
        invariant
            n == bytes@.len(),
            start <= n,
            count <= 200,
            records_view(recs@) + register_records(bytes@, start as int, count as int)
                == register_records(bytes@, 0, 0),
        decreases n - start,
    {
        let mut e = start;
        while e < n && bytes[e] != 0x0A
            invariant
                start <= e <= n,
                n == bytes@.len(),
                line_end(bytes@, e as int) == line_end(bytes@, start as int),
            decreases n - e,
        {
            e += 1;
        }
        let len = if e < n {
            e - start + 1
        } else {
            n - start
        };
        if len <= 1 {
            proof {
                assert(register_records(bytes@, start as int, count as int) =~= Seq::empty());
                assert(register_records(bytes@, n as int, count as int) =~= Seq::empty());
            }
            start = n;
        } else {
            let line = crate::bytes::subvec(bytes, start, e);
            let ghost rest = register_records(bytes@, start + len, count + 1);
            let ghost before = records_view(recs@);
            match parse_position_record(line.as_slice()) {
                Some(rec) => {
                    recs.push(rec);
                    assert(records_view(recs@) =~= before.push(record_view(rec)));
                    assert(before.push(record_view(rec)) + rest =~= before + (seq![record_view(rec)]
                        + rest));
                },
                None => {},
            }
            start = start + len;
            count += 1;
        }
    }
    proof {
        assert(register_records(bytes@, start as int, count as int) =~= Seq::empty());
        assert(records_view(recs@) + Seq::empty() =~= records_view(recs@));
    }
    recs
}

/// The decimal digits of `n`.
pub open spec fn digits_of(n: nat) -> Seq<u8>
    decreases n,
{
    if n < 10 {
        seq![(n + 0x30) as u8]
    } else {
        digits_of(n / 10).push((n % 10 + 0x30) as u8)
    }
}

/// The decimal form of `i`: a minus sign for a negative number, then its
/// digits.
pub open spec fn decimal_of(i: int) -> Seq<u8> {
    if i < 0 {
        seq![0x2Du8] + digits_of((-i) as nat)
    } else {
        digits_of(i as nat)
    }
}

/// Append the decimal digits of `n` to `v`.
pub fn push_digits(v: &mut Vec<u8>, n: u64)
    ensures
        final(v)@ == old(v)@ + digits_of(n as nat),
    decreases n,
{
    if n >= 10 {
        push_digits(v, n / 10);
    }
    v.push((n % 10 + 0x30) as u8);
    assert(final(v)@ =~= old(v)@ + digits_of(n as nat)) by {
        if n >= 10 {
            assert(digits_of(n as nat) == digits_of((n / 10) as nat).push((n % 10 + 0x30) as u8));
        }
    }
}

/// Append the decimal form of `i` to `v`.
pub fn push_decimal(v: &mut Vec<u8>, i: isize)
    ensures
        final(v)@ == old(v)@ + decimal_of(i as int),
{
    if i < 0 {
        v.push(0x2D);
        let m: u64 = if i == isize::MIN {
            (isize::MAX as u64) + 1
        } else {
            (-i) as u64
        };
        let ghost mid = v@;
        push_digits(v, m);
        assert(final(v)@ =~= old(v)@ + decimal_of(i as int));
    } else {
        push_digits(v, i as u64);
    }
}

/// `b` with each line feed turned into a NUL byte.
pub open spec fn lf_to_nul(b: Seq<u8>) -> Seq<u8> {
    b.map_values(|x: u8| if x == 0x0A { 0u8 } else { x })
}

/// The line of the positions register for one record: the anchors, the
/// path with the line and the column (line feeds in the path stored as NUL
/// bytes), and a line feed.
pub open spec fn record_line(r: (Seq<char>, isize, isize, Option<Seq<char>>)) -> Seq<u8> {
    let anchors = match r.3 {
        Some(a) => encode_utf8(a),
        None => Seq::empty(),
    };
    anchors + lf_to_nul(encode_utf8(r.0) + seq![0x20u8] + decimal_of(r.1 as int) + seq![0x20u8]
        + decimal_of(r.2 as int)) + seq![0x0Au8]
}

/// The contents of the positions register for (at most the first 200 of)
/// the records `v`.
pub open spec fn register_bytes(v: Seq<(Seq<char>, isize, isize, Option<Seq<char>>)>, n: int) -> Seq<u8>
    decreases n,
{
    if n <= 0 || n > v.len() {
        Seq::empty()
    } else {
        register_bytes(v, n - 1) + record_line(v[n - 1])
    }
}

fn push_lf_to_nul(v: &mut Vec<u8>, b: &[u8])
    ensures
        final(v)@ == old(v)@ + lf_to_nul(b@),
{
    let n = b.len();
    let mut i: usize = 0;
    while i < n
        invariant
            n == b@.len(),
            i <= n,
            v@ == old(v)@ + lf_to_nul(b@.subrange(0, i as int)),
        decreases n - i,
    {
        let x = b[i];
        v.push(if x == 0x0A { 0u8 } else { x });
        i += 1;
        assert(v@ =~= old(v)@ + lf_to_nul(b@.subrange(0, i as int)));
    }
    assert(b@.subrange(0, n as int) =~= b@);
}

/// Write the records `records` (at most 200 of them) in the format of the
/// positions register.
pub fn positions_to_bytes(records: &Vec<PositionRecord>) -> (r: Vec<u8>)
    ensures
        r@ == register_bytes(
            records_view(records@),
            if records@.len() < 200 {
                records@.len() as int
            } else {
                200
            },
        ),
{
    let n = records.len();
    let limit = if n < 200 {
        n
    } else {
        200
    };
    let ghost v = records_view(records@);
    let mut out: Vec<u8> = Vec::new();
    let mut i: usize = 0;
    while i < limit
        invariant
            n == records@.len(),
            limit <= n,
            i <= limit,
            v == records_view(records@),
            out@ == register_bytes(v, i as int),
        decreases limit - i,
    {
        let rec = &records[i];
        let ghost before = out@;
        match &rec.anchors {
            Some(a) => {
                crate::bytes::append_bytes(&mut out, a.as_str().as_bytes());
            },
            None => {},
        }
        let ghost after_anchors = out@;
        let mut place: Vec<u8> = Vec::new();
        crate::bytes::append_bytes(&mut place, rec.filename.as_str().as_bytes());
        place.push(0x20);
        push_decimal(&mut place, rec.linenumber);
        place.push(0x20);
        push_decimal(&mut place, rec.columnnumber);
        push_lf_to_nul(&mut out, place.as_slice());
        out.push(0x0A);
        proof {
            assert(place@ =~= encode_utf8(rec.filename@) + seq![0x20u8] + decimal_of(rec.linenumber as int)
                + seq![0x20u8] + decimal_of(rec.columnnumber as int));
            assert(v[i as int] == record_view(*rec));
            assert(out@ =~= register_bytes(v, i as int) + record_line(v[i as int]));
        }
        i += 1;
    }
    out
}

/// The positions register with the record for `path` replaced by a new one
/// at the front.
pub open spec fn register_with(
    v: Seq<(Seq<char>, isize, isize, Option<Seq<char>>)>,
    rec: (Seq<char>, isize, isize, Option<Seq<char>>),
) -> Seq<(Seq<char>, isize, isize, Option<Seq<char>>)> {
    seq![rec] + v.filter(other_path(rec.0))
}

/// Whether a record is for another path than `p`.
pub open spec fn other_path(p: Seq<char>) -> spec_fn((Seq<char>, isize, isize, Option<Seq<char>>)) -> bool {
    |r: (Seq<char>, isize, isize, Option<Seq<char>>)| r.0 != p
}

/// Remember the position (and the anchors, when there are any) for the file
/// at `fullpath`: its old record goes, and the new one goes to the front.
pub fn update_positions_register(
    records: &mut Vec<PositionRecord>,
    fullpath: String,
    linenumber: isize,
    columnnumber: isize,
    anchors: String,
)
    ensures
        records_view(final(records)@) == register_with(
            records_view(old(records)@),
            (
                fullpath@,
                linenumber,
                columnnumber,
                if anchors@.len() == 0 {
                    None
                } else {
                    Some(anchors@)
                },
            ),
        ),
{
    let ghost v = records_view(records@);
    let ghost key = fullpath@;
    let mut kept: Vec<PositionRecord> = Vec::new();
    let n = records.len();
    let mut i: usize = 0;
    while i < n
        invariant
            n == records@.len(),
            i <= n,
            v == records_view(records@),
            key == fullpath@,
            records_view(kept@) == v.subrange(0, i as int).filter(other_path(key)),
        decreases n - i,
    {
        let ghost before = records_view(kept@);
        let ghost w = v.subrange(0, i + 1);
        proof {
            reveal(Seq::filter);
            assert(w.drop_last() =~= v.subrange(0, i as int));
            assert(w.last() == v[i as int]);
            assert(v[i as int] == record_view(records@[i as int]));
            assert(w.filter(other_path(key)) == if other_path(key)(w.last()) {
                w.drop_last().filter(other_path(key)).push(w.last())
            } else {
                w.drop_last().filter(other_path(key))
            });
        }
        if records[i].filename != fullpath {
            let d = records[i].duplicate();
            kept.push(d);
            assert(records_view(kept@) =~= before.push(record_view(d)));
        }
        i += 1;
    }
    let a = if anchors.as_str().unicode_len() == 0 {
        None
    } else {
        Some(anchors)
    };
    let rec = PositionRecord { filename: fullpath, linenumber, columnnumber, anchors: a };
    let ghost rv = record_view(rec);
    kept.insert(0, rec);
    proof {
        assert(v.subrange(0, n as int) =~= v);
        assert(records_view(kept@) =~= seq![rv] + v.filter(other_path(key)));
    }
    *records = kept;
}

/// The digits of a number are ASCII digits.
proof fn lemma_digits_ascii(n: nat)
    ensures
        forall|i: int| 0 <= i < digits_of(n).len() ==> 0x30 <= #[trigger] digits_of(n)[i] <= 0x39,
        digits_of(n).len() >= 1,
    decreases n,
{
    if n >= 10 {
        lemma_digits_ascii(n / 10);
    }
}

/// The line numbers (counting from one) of the first `n` lines that have
/// an anchor (as `a` says), each followed by a space.
pub open spec fn anchor_bytes(a: Seq<bool>, n: int) -> Seq<u8>
    decreases n,
{
    if n <= 0 || n > a.len() {
        Seq::empty()
    } else {
        anchor_bytes(a, n - 1) + if a[n - 1] {
            digits_of(n as nat).push(0x20u8)
        } else {
            Seq::empty()
        }
    }
}

/// Return the line numbers of the lines of `file` that have an anchor, each
/// followed by a space.
pub fn stringify_anchors(file: &OpenFileStruct) -> (r: String)
    ensures
        r@ == anchor_text(anchors(file.lines@)),
{
    let ghost a = anchors(file.lines@);
    let n = file.lines.len();
    let mut out: Vec<u8> = Vec::new();
    let mut i: usize = 0;
    while i < n
        invariant
            n == file.lines@.len(),
            a == anchors(file.lines@),
            i <= n,
            out@ == anchor_bytes(a, i as int),
            forall|k: int| 0 <= k < out@.len() ==> #[trigger] out@[k] < 0x80,
        decreases n - i,
    {
        if file.lines[i].has_anchor {
            let ghost before = out@;
            push_digits(&mut out, (i + 1) as u64);
            out.push(0x20);
            proof {
                lemma_digits_ascii((i + 1) as nat);
                assert(out@ =~= before + digits_of((i + 1) as nat).push(0x20u8));
                assert forall|k: int| 0 <= k < out@.len() implies #[trigger] out@[k] < 0x80 by {
                    if k >= before.len() && k < out@.len() - 1 {
                        assert(out@[k] == digits_of((i + 1) as nat)[k - before.len()]);
                    }
                }
            }
        } else {
            assert(out@ =~= anchor_bytes(a, i as int) + Seq::<u8>::empty());
        }
        i += 1;
    }
    proof {
        crate::bytes::lemma_ascii_utf8(out@);
    }
    crate::bytes::bytes_to_string(out.as_slice())
}

/// The `isize` that `s` spells exactly: an optional sign and decimal
/// digits that fit, with nothing around them.
pub open spec fn spec_parse_exact(s: Seq<char>) -> Option<isize> {
    match spelled_int(s) {
        Some(v) => if isize::MIN <= v <= isize::MAX {
            Some(v as isize)
        } else {
            None
        },
        None => None,
    }
}

/// Parse `t` as an `isize`, allowing nothing but an optional sign and
/// decimal digits.
pub fn parse_isize_exact(t: &str) -> (r: Option<isize>)
    ensures
        r == spec_parse_exact(t@),
{
    let n = t.unicode_len();
    if n == 0 {
        return None;
    }
    let c0 = t.get_char(0);
    let cl = t.get_char(n - 1);
    if ws_char(c0) || ws_char(cl) {
        proof {
            if is_ws(t@[0]) {
                assert(!('0' <= t@[0] <= '9') && t@[0] != '+' && t@[0] != '-');
            } else {
                assert(!('0' <= t@[n - 1] <= '9'));
                assert(t@.subrange(1, n as int)[n - 2] == t@[n - 1]);
            }
        }
        return None;
    }
    proof {
        assert(lead_end(t@, 0) == 0);
        assert(trail_end(t@, n as int) == n);
        assert(t@.subrange(0, n as int) =~= t@);
    }
    parse_isize(t)
}

/// The index of the first space at or after `i` in `s`.
pub open spec fn first_space_from(s: Seq<char>, i: int) -> Option<int>
    decreases s.len() - i,
{
    if i < 0 || i >= s.len() {
        None
    } else if s[i] == ' ' {
        Some(i)
    } else {
        first_space_from(s, i + 1)
    }
}

pub proof fn lemma_first_space_range(s: Seq<char>, i: int)
    ensures
        first_space_from(s, i) matches Some(k) ==> i <= k < s.len(),
    decreases s.len() - i,
{
    if !(i < 0 || i >= s.len()) && s[i] != ' ' {
        lemma_first_space_range(s, i + 1);
    }
}

/// The indices of the lines that get an anchor when the line numbers in
/// `s` (from character `pos` on, each followed by a space, in increasing
/// order) are applied to a file of `nl` lines, starting at line `line`:
/// reading stops at the end, at a number that does not parse, or past the
/// last line.
pub open spec fn anchor_marks(s: Seq<char>, pos: int, line: int, nl: int) -> Seq<int>
    decreases s.len() - pos,
{
    if pos < 0 || pos >= s.len() {
        Seq::empty()
    } else {
        match first_space_from(s, pos) {
            None => Seq::empty(),
            Some(sp) => match spec_parse_exact(s.subrange(pos, sp)) {
                None => Seq::empty(),
                Some(num) => {
                    let l2 = if line + 1 < num {
                        num - 1
                    } else {
                        line
                    };
                    if l2 >= nl {
                        Seq::empty()
                    } else {
                        proof {
                            lemma_first_space_range(s, pos);
                        }
                        (if l2 + 1 == num {
                            seq![l2]
                        } else {
                            Seq::empty()
                        }) + anchor_marks(s, sp + 1, l2, nl)
                    }
                },
            },
        }
    }
}

/// Put anchors on the lines whose numbers `string` lists (each followed by
/// a space, in increasing order); the file's text does not change.
pub fn restore_anchors(file: &mut OpenFileStruct, string: &str)
    requires
        old(file).wf(),
    ensures
        final(file).wf(),
        texts(final(file).lines@) == texts(old(file).lines@),
        final(file).lines@.len() == old(file).lines@.len(),
        forall|j: int|
            0 <= j < old(file).lines@.len() ==> #[trigger] anchors(final(file).lines@)[j] == (anchors(
                old(file).lines@,
            )[j] || anchor_marks(string@, 0, 0, old(file).lines@.len() as int).contains(j)),
        final(file).current == old(file).current,
        final(file).current_x == old(file).current_x,
        final(file).edittop == old(file).edittop,
        final(file).mark == old(file).mark,
        final(file).mark_x == old(file).mark_x,
        final(file).totsize == old(file).totsize,
        crate::buffer::same_file_meta(*final(file), *old(file)),
{
    let ghost s = string@;
    let ghost a0 = anchors(file.lines@);
    let ghost nl = file.lines@.len() as int;
    let ghost all = anchor_marks(s, 0, 0, nl);
    let n = string.unicode_len();
    let nlines = file.lines.len();
    let mut pos: usize = 0;
    let mut line: usize = 0;
    let ghost mut done_marks = Seq::<int>::empty();
    while pos < n
        invariant
            n == s.len(),
            s == string@,
            nlines == nl,
            file.lines@.len() == nl,
            file.wf(),
            texts(file.lines@) == texts(old(file).lines@),
            file.current == old(file).current,
            file.current_x == old(file).current_x,
            file.edittop == old(file).edittop,
            file.mark == old(file).mark,
            file.mark_x == old(file).mark_x,
            file.totsize == old(file).totsize,
            crate::buffer::same_file_meta(*file, *old(file)),
            line <= nl,
            pos <= n,
            done_marks + anchor_marks(s, pos as int, line as int, nl) == all,
            forall|j: int|
                0 <= j < nl ==> #[trigger] anchors(file.lines@)[j] == (a0[j] || done_marks.contains(j)),
        ensures
            file.lines@.len() == nl,
            file.wf(),
            texts(file.lines@) == texts(old(file).lines@),
            file.current == old(file).current,
            file.current_x == old(file).current_x,
            file.edittop == old(file).edittop,
            file.mark == old(file).mark,
            file.mark_x == old(file).mark_x,
            file.totsize == old(file).totsize,
            crate::buffer::same_file_meta(*file, *old(file)),
            forall|j: int|
                0 <= j < nl ==> #[trigger] anchors(file.lines@)[j] == (a0[j] || all.contains(j)),
        decreases n - pos,
    {
        let mut sp = pos;
        while sp < n && string.get_char(sp) != ' '
            invariant
                pos <= sp <= n,
                n == string@.len(),
                first_space_from(string@, sp as int) == first_space_from(string@, pos as int),
            decreases n - sp,
        {
            sp += 1;
        }
        if sp >= n {
            proof {
                assert(anchor_marks(s, pos as int, line as int, nl) =~= Seq::empty());
                assert(done_marks + Seq::empty() =~= done_marks);
            }
            break;
        }
        let num = match parse_isize_exact(string.substring_char(pos, sp)) {
            Some(v) => v,
            None => {
                proof {
                    assert(done_marks + Seq::empty() =~= done_marks);
                }
                break;
            },
        };
        let ghost old_line = line;
        let ghost rest_marks = anchor_marks(s, sp + 1, if line + 1 < num { num - 1 } else { line as int }, nl);
        while line < nlines && (line as i128) < (num as i128) - 1
            invariant
                nlines == nl,
                line <= nl,
                old_line <= line,
                line > old_line ==> line <= num - 1,
            decreases nl - line,
        {
            line += 1;
        }
        if line >= nlines {
            proof {
                assert(done_marks + Seq::empty() =~= done_marks);
            }
            break;
        }
        proof {
            lemma_first_space_range(s, pos as int);
            assert(line as int == if old_line + 1 < num { num - 1 } else { old_line as int });
            assert(anchor_marks(s, pos as int, old_line as int, nl) == (if line + 1 == num {
                seq![line as int]
            } else {
                Seq::<int>::empty()
            }) + rest_marks);
        }
        if (line as i128) + 1 == (num as i128) {
            let ghost before = file.lines@;
            crate::cut::set_anchor(&mut file.lines, line, true);
            proof {
                assert forall|k: int| 0 <= k < nl implies #[trigger] file.lines@[k].data@ == before[k].data@ by {
                    assert(texts(file.lines@)[k] == texts(before)[k]);
                }
                assert(done_marks + (seq![line as int] + rest_marks) =~= done_marks.push(line as int) + rest_marks);
                let old_done = done_marks;
                done_marks = done_marks.push(line as int);
                assert forall|j: int| 0 <= j < nl implies #[trigger] anchors(file.lines@)[j] == (a0[j]
                    || done_marks.contains(j)) by {
                    if j == line {
                        assert(done_marks[done_marks.len() - 1] == j);
                    } else {
                        if old_done.contains(j) {
                            let w = choose|w: int| 0 <= w < old_done.len() && old_done[w] == j;
                            assert(done_marks[w] == j);
                        }
                        if done_marks.contains(j) {
                            let w = choose|w: int| 0 <= w < done_marks.len() && done_marks[w] == j;
                            assert(w < old_done.len());
                            assert(old_done[w] == j);
                        }
                    }
                }
            }
        } else {
            proof {
                assert(done_marks + (Seq::<int>::empty() + rest_marks) =~= done_marks + rest_marks);
            }
        }
        pos = sp + 1;
    }
}

/// The text of the anchors of lines `m` on: each anchored line's number,
/// followed by a space.
pub open spec fn anchor_tail(a: Seq<bool>, m: int) -> Seq<u8>
    decreases a.len() - m,
{
    if m < 0 || m >= a.len() {
        Seq::empty()
    } else {
        (if a[m] {
            digits_of((m + 1) as nat).push(0x20u8)
        } else {
            Seq::empty()
        }) + anchor_tail(a, m + 1)
    }
}

/// The indices, from `m` on and in increasing order, of the lines that `a`
/// marks with an anchor.
pub open spec fn anchored_from(a: Seq<bool>, m: int) -> Seq<int>
    decreases a.len() - m,
{
    if m < 0 || m >= a.len() {
        Seq::empty()
    } else {
        (if a[m] {
            seq![m]
        } else {
            Seq::empty()
        }) + anchored_from(a, m + 1)
    }
}

proof fn lemma_anchor_bytes_split(a: Seq<bool>, m: int)
    requires
        0 <= m <= a.len(),
    ensures
        anchor_bytes(a, m) + anchor_tail(a, m) == anchor_tail(a, 0),
    decreases m,
{
    if m == 0 {
        assert(anchor_bytes(a, 0) + anchor_tail(a, 0) =~= anchor_tail(a, 0));
    } else {
        lemma_anchor_bytes_split(a, m - 1);
        let piece = if a[m - 1] {
            digits_of(m as nat).push(0x20u8)
        } else {
            Seq::empty()
        };
        assert(anchor_tail(a, m - 1) == piece + anchor_tail(a, m));
        assert(anchor_bytes(a, m) == anchor_bytes(a, m - 1) + piece);
        assert(anchor_bytes(a, m) + anchor_tail(a, m) =~= anchor_bytes(a, m - 1) + (piece + anchor_tail(a, m)));
    }
}

proof fn lemma_space_found(s: Seq<char>, i: int, j: int)
    requires
        0 <= i <= j < s.len(),
        s[j] == ' ',
        forall|k: int| i <= k < j ==> s[k] != ' ',
    ensures
        first_space_from(s, i) == Some(j),
    decreases j - i,
{
    if i < j {
        lemma_space_found(s, i + 1, j);
    }
}

proof fn lemma_anchored_contains(a: Seq<bool>, m: int, j: int)
    requires
        0 <= m,
    ensures
        anchored_from(a, m).contains(j) <==> (m <= j < a.len() && a[j]),
    decreases a.len() - m,
{
    if m < a.len() {
        lemma_anchored_contains(a, m + 1, j);
        let head = if a[m] {
            seq![m]
        } else {
            Seq::<int>::empty()
        };
        assert(anchored_from(a, m) == head + anchored_from(a, m + 1));
        if anchored_from(a, m).contains(j) {
            let k = choose|k: int| 0 <= k < anchored_from(a, m).len() && #[trigger] anchored_from(a, m)[k] == j;
            if k >= head.len() {
                assert(anchored_from(a, m + 1)[k - head.len()] == j);
            }
        }
        if m <= j < a.len() && a[j] {
            if j == m {
                assert(anchored_from(a, m)[0] == j);
            } else {
                let k = choose|k: int| 0 <= k < anchored_from(a, m + 1).len() && #[trigger] anchored_from(a, m + 1)[k] == j;
                assert(anchored_from(a, m)[head.len() + k] == j);
            }
        }
    }
}

proof fn lemma_anchor_marks_read(a: Seq<bool>, m: int, line: int, s: Seq<char>, p: int)
    requires
        0 <= m <= a.len(),
        a.len() < isize::MAX,
        0 <= line <= m,
        0 <= p <= s.len(),
        s.subrange(p, s.len() as int) == anchor_tail(a, m).map_values(|b: u8| b as char),
    ensures
        anchor_marks(s, p, line, a.len() as int) == anchored_from(a, m),
    decreases a.len() - m,
{
    let nl = a.len() as int;
    if m == nl {
        assert(s.subrange(p, s.len() as int).len() == 0);
        assert(anchored_from(a, m) =~= Seq::<int>::empty());
    } else if !a[m] {
        assert(anchor_tail(a, m) =~= anchor_tail(a, m + 1));
        lemma_anchor_marks_read(a, m + 1, line, s, p);
        assert(anchored_from(a, m) =~= anchored_from(a, m + 1));
    } else {
        let d = digits_of((m + 1) as nat);
        let dc = d.map_values(|b: u8| b as char);
        lemma_digits_round_trip((m + 1) as nat);
        let t = anchor_tail(a, m);
        assert(t == d.push(0x20u8) + anchor_tail(a, m + 1));
        let tc = t.map_values(|b: u8| b as char);
        let dl = d.len() as int;
        assert(s.subrange(p, s.len() as int).len() == tc.len());
        assert(t.len() == dl + 1 + anchor_tail(a, m + 1).len());
        assert(s.len() - p == t.len());
        assert forall|k: int| 0 <= k < dl implies s[p + k] == dc[k] && s[p + k] != ' ' by {
            assert(s[p + k] == s.subrange(p, s.len() as int)[k]);
            assert(tc[k] == t[k] as char);
            assert(t[k] == d[k]);
            assert(0x30 <= d[k] <= 0x39);
        }
        assert(s[p + dl] == s.subrange(p, s.len() as int)[dl]);
        assert(t[dl] == 0x20u8);
        assert forall|k: int| p <= k < p + dl implies s[k] != ' ' by {
            assert(s[k] == s.subrange(p, s.len() as int)[k - p]);
            assert(tc[k - p] == t[k - p] as char);
            assert(t[k - p] == d[k - p]);
            assert(0x30 <= d[k - p] <= 0x39);
        }
        lemma_space_found(s, p, p + dl);
        assert(s.subrange(p, p + dl) =~= dc);
        assert(dc[0] == d[0] as char);
        assert('0' <= dc[0] <= '9');
        assert(spelled_int(dc) == Some(m + 1));
        assert(spec_parse_exact(dc) == Some((m + 1) as isize));
        assert(s.subrange(p + dl + 1, s.len() as int) =~= anchor_tail(a, m + 1).map_values(|b: u8| b as char)) by {
            assert forall|k: int| 0 <= k < s.len() - (p + dl + 1) implies #[trigger] s.subrange(p + dl + 1, s.len() as int)[k]
                == anchor_tail(a, m + 1).map_values(|b: u8| b as char)[k] by {
                assert(s[p + dl + 1 + k] == s.subrange(p, s.len() as int)[dl + 1 + k]);
                assert(t[dl + 1 + k] == anchor_tail(a, m + 1)[k]);
            }
        }
        lemma_anchor_marks_read(a, m + 1, m, s, p + dl + 1);
        assert(anchored_from(a, m) =~= seq![m] + anchored_from(a, m + 1));
    }
}

/// The text that `stringify_anchors` makes of the anchors `a`.
pub open spec fn anchor_text(a: Seq<bool>) -> Seq<char> {
    anchor_bytes(a, a.len() as int).map_values(|b: u8| b as char)
}

/// Reading back the anchors of a file: the line numbers that
/// `stringify_anchors` writes for the anchors `a` mark, when
/// `restore_anchors` reads them, exactly the lines that had an anchor.
pub proof fn lemma_anchors_read_back(a: Seq<bool>)
    requires
        a.len() < isize::MAX,
    ensures
        forall|j: int|
            0 <= j < a.len() ==> #[trigger] anchor_marks(anchor_text(a), 0, 0, a.len() as int).contains(j) == a[j],
{
    let s = anchor_text(a);
    lemma_anchor_bytes_split(a, a.len() as int);
    assert(anchor_tail(a, a.len() as int) =~= Seq::<u8>::empty());
    assert(anchor_bytes(a, a.len() as int) =~= anchor_tail(a, 0));
    assert(s.subrange(0, s.len() as int) =~= s);
    lemma_anchor_marks_read(a, 0, 0, s, 0);
    assert forall|j: int| 0 <= j < a.len() implies #[trigger] anchor_marks(s, 0, 0, a.len() as int).contains(j) == a[j] by {
        lemma_anchored_contains(a, 0, j);
    }
}

/// The index of the first record for the path `p`.
pub open spec fn record_index_for(v: Seq<(Seq<char>, isize, isize, Option<Seq<char>>)>, p: Seq<char>, i: int) -> Option<int>
    decreases v.len() - i,
{
    if i < 0 || i >= v.len() {
        None
    } else if v[i].0 == p {
        Some(i)
    } else {
        record_index_for(v, p, i + 1)
    }
}

proof fn lemma_record_index_range(v: Seq<(Seq<char>, isize, isize, Option<Seq<char>>)>, p: Seq<char>, i: int)
    ensures
        record_index_for(v, p, i) matches Some(k) ==> i <= k < v.len() && v[k].0 == p,
    decreases v.len() - i,
{
    if !(i < 0 || i >= v.len()) && v[i].0 != p {
        lemma_record_index_range(v, p, i + 1);
    }
}

/// When the register holds a position for the file at `fullpath`, put the
/// anchors it lists on the file's lines and return the line and column to
/// go to; otherwise change nothing and return nothing.
pub fn restore_cursor_position_if_any(
    file: &mut OpenFileStruct,
    records: &Vec<PositionRecord>,
    fullpath: &String,
) -> (r: Option<(isize, isize)>)
    requires
        old(file).wf(),
    ensures
        final(file).wf(),
        texts(final(file).lines@) == texts(old(file).lines@),
        match record_index_for(records_view(records@), fullpath@, 0) {
            None => r is None && *final(file) == *old(file),
            Some(k) => {
                let rec = records_view(records@)[k];
                &&& r == Some((rec.1, rec.2))
                &&& rec.3 is None ==> *final(file) == *old(file)
                &&& rec.3 matches Some(a) ==> forall|j: int|
                    0 <= j < old(file).lines@.len() ==> #[trigger] anchors(final(file).lines@)[j] == (
                    anchors(old(file).lines@)[j] || anchor_marks(a, 0, 0, old(file).lines@.len() as int).contains(j))
            },
        },
{
    let ghost v = records_view(records@);
    proof {
        lemma_record_index_range(v, fullpath@, 0);
    }
    let n = records.len();
    let mut i: usize = 0;
    while i < n
        invariant
            n == records@.len(),
            v == records_view(records@),
            i <= n,
            *file == *old(file),
            old(file).wf(),
            record_index_for(v, fullpath@, i as int) == record_index_for(v, fullpath@, 0),
        decreases n - i,
    {
        if records[i].filename == *fullpath {
            assert(v[i as int] == record_view(records@[i as int]));
            match &records[i].anchors {
                Some(a) => restore_anchors(file, a.as_str()),
                None => {},
            }
            return Some((records[i].linenumber, records[i].columnnumber));
        }
        assert(v[i as int] == record_view(records@[i as int]));
        i += 1;
    }
    None
}

/// What the SHA-256 digest of `b` is.
pub uninterp spec fn spec_sha256(b: Seq<u8>) -> Seq<u8>;

/// The SHA-256 digest of `b`, 32 bytes.
///
/// Calls `sha2::Sha256::digest`; its result is a fixed function of `b`,
/// named here, and (as the crate's output size says) 32 bytes long.
#[verifier::external_body]
fn sha256_digest(b: &[u8]) -> (r: Vec<u8>)
    ensures
        r@ == spec_sha256(b@),
        r@.len() == 32,
{
    sha2::Sha256::digest(b).to_vec()
}

/// What identifies a version of the positions register: its modification
/// time (in nanoseconds since the epoch, when known), its size, and the
/// digest of its contents.
#[derive(Debug)]
pub struct PositionFileStamp {
    pub modified: Option<u128>,
    pub metadata_len: u64,
    pub digest: Vec<u8>,
}

/// Return the stamp of a version of the positions register with the given
/// modification time, size and contents.
pub fn stamp_position_bytes(modified: Option<u128>, metadata_len: u64, bytes: &[u8]) -> (r: PositionFileStamp)
    ensures
        r.modified == modified,
        r.metadata_len == metadata_len,
        r.digest@ == spec_sha256(bytes@),
{
    PositionFileStamp { modified, metadata_len, digest: sha256_digest(bytes) }
}

/// Return whether two stamps are the same, so that the register need not
/// be read again.
pub fn same_stamp(a: &PositionFileStamp, b: &PositionFileStamp) -> (r: bool)
    ensures
        r == (a.modified == b.modified && a.metadata_len == b.metadata_len && a.digest@
            == b.digest@),
{
    let same_time = match (a.modified, b.modified) {
        (Some(x), Some(y)) => x == y,
        (None, None) => true,
        _ => false,
    };
    same_time && a.metadata_len == b.metadata_len && crate::bytes::bytes_eq(
        a.digest.as_slice(),
        b.digest.as_slice(),
    )
}

/// The history that follows `which` in the history file.
pub open spec fn next_kind(which: HistoryKind) -> HistoryKind {
    match which {
        HistoryKind::Search => HistoryKind::Replace,
        _ => HistoryKind::Execute,
    }
}

/// The entries of the three histories, as plain values.
pub open spec fn all_entries(h: Histories) -> (Seq<Seq<char>>, Seq<Seq<char>>, Seq<Seq<char>>) {
    (entries(h.search), entries(h.replace), entries(h.execute))
}

/// The entries after `t` was added (keeping duplicates) to the history of
/// kind `which`.
pub open spec fn add_entry(
    e: (Seq<Seq<char>>, Seq<Seq<char>>, Seq<Seq<char>>),
    which: HistoryKind,
    t: Seq<char>,
) -> (Seq<Seq<char>>, Seq<Seq<char>>, Seq<Seq<char>>) {
    match which {
        HistoryKind::Search => (entries_after_update(e.0, t, false), e.1, e.2),
        HistoryKind::Replace => (e.0, entries_after_update(e.1, t, false), e.2),
        HistoryKind::Execute => (e.0, e.1, entries_after_update(e.2, t, false)),
    }
}

/// The text of a line of the history file: its decoding where it is valid
/// UTF-8, and otherwise what lossy decoding makes of it.
pub open spec fn text_of_line(b: Seq<u8>) -> Seq<char> {
    if valid_utf8(b) {
        decode_utf8(b)
    } else {
        spec_lossy(b)
    }
}

/// The entries after reading the history file `b` from byte `start` on
/// into the history of kind `which` and the ones after it: each non-empty
/// line is an entry (NUL bytes stand for line feeds), and an empty line
/// moves on to the next history.
pub open spec fn loaded(
    b: Seq<u8>,
    start: int,
    which: HistoryKind,
    e: (Seq<Seq<char>>, Seq<Seq<char>>, Seq<Seq<char>>),
) -> (Seq<Seq<char>>, Seq<Seq<char>>, Seq<Seq<char>>)
    decreases b.len() - start,
{
    if start < 0 || start >= b.len() {
        e
    } else {
        let end = line_end(b, start);
        let next = if end < b.len() {
            end + 1
        } else {
            b.len() as int
        };
        if end < start || next <= start {
            e
        } else if end == start {
            loaded(b, next, next_kind(which), e)
        } else {
            loaded(b, next, which, add_entry(e, which, text_of_line(nul_to_lf(b.subrange(start, end)))))
        }
    }
}

/// Read the contents `bytes` of the history file into the histories.
pub fn histories_from_bytes(h: &mut Histories, bytes: &[u8])
    ensures
        all_entries(*final(h)) == loaded(bytes@, 0, HistoryKind::Search, all_entries(*old(h))),
        !final(h).changed,
{
    let n = bytes.len();
    let mut start: usize = 0;
    let mut which = HistoryKind::Search;
    while start < n
        invariant
            n == bytes@.len(),
            start <= n,
            loaded(bytes@, start as int, which, all_entries(*h)) == loaded(
                bytes@,
                0,
                HistoryKind::Search,
                all_entries(*old(h)),
            ),
        decreases n - start,
    {
        let mut e = start;
        while e < n && bytes[e] != 0x0A
            invariant
                start <= e <= n,
                n == bytes@.len(),
                line_end(bytes@, e as int) == line_end(bytes@, start as int),
            decreases n - e,
        {
            e += 1;
        }
        let next = if e < n {
            e + 1
        } else {
            n
        };
        if e == start {
            which = match which {
                HistoryKind::Search => HistoryKind::Replace,
                _ => HistoryKind::Execute,
            };
        } else {
            let line = recode_nul_to_lf(crate::bytes::subvec(bytes, start, e).as_slice());
            let t = crate::bytes::bytes_to_string(line.as_slice());
            let ghost before = all_entries(*h);
            assert(t@ == text_of_line(line@));
            update_history(h, which, t.as_str(), false);
            assert(all_entries(*h) == add_entry(before, which, t@));
        }
        start = next;
    }
    h.changed = false;
}

/// The lines of the history file for the entries `v[..n]`: each entry with
/// its line feeds stored as NUL bytes, followed by a line feed.
pub open spec fn list_bytes(v: Seq<Seq<char>>, n: int) -> Seq<u8>
    decreases n,
{
    if n <= 0 || n > v.len() {
        Seq::empty()
    } else {
        list_bytes(v, n - 1) + lf_to_nul(encode_utf8(v[n - 1])) + seq![0x0Au8]
    }
}

fn push_list(out: &mut Vec<u8>, items: &Vec<String>)
    ensures
        final(out)@ == old(out)@ + list_bytes(items@.map_values(|s: String| s@), items@.len() as int),
{
    let ghost v = items@.map_values(|s: String| s@);
    let n = items.len();
    let mut i: usize = 0;
    while i < n
        invariant
            n == items@.len(),
            v == items@.map_values(|s: String| s@),
            i <= n,
            out@ == old(out)@ + list_bytes(v, i as int),
        decreases n - i,
    {
        let ghost before = out@;
        push_lf_to_nul(out, items[i].as_str().as_bytes());
        out.push(0x0A);
        assert(out@ =~= old(out)@ + list_bytes(v, i + 1));
        i += 1;
    }
}

/// The contents of the history file for the entries `e`: the search
/// entries, an empty line, the replacement entries, an empty line, and the
/// commands.
pub open spec fn history_file(e: (Seq<Seq<char>>, Seq<Seq<char>>, Seq<Seq<char>>)) -> Seq<u8> {
    list_bytes(e.0, e.0.len() as int) + seq![0x0Au8] + list_bytes(e.1, e.1.len() as int) + seq![0x0Au8]
        + list_bytes(e.2, e.2.len() as int)
}

/// The contents of the history file (see `history_file`).
pub fn histories_to_bytes(h: &Histories) -> (r: Vec<u8>)
    ensures
        r@ == history_file(all_entries(*h)),
{
    let mut out: Vec<u8> = Vec::new();
    push_list(&mut out, &h.search.items);
    out.push(0x0A);
    push_list(&mut out, &h.replace.items);
    out.push(0x0A);
    push_list(&mut out, &h.execute.items);
    assert(out@ =~= list_bytes(entries(h.search), h.search.items@.len() as int) + seq![0x0Au8]
        + list_bytes(entries(h.replace), h.replace.items@.len() as int) + seq![0x0Au8]
        + list_bytes(entries(h.execute), h.execute.items@.len() as int));
    out
}


/// An entry that the history file keeps as it is: not empty, and free of NUL
/// characters (which the file could not tell from stored line feeds).
pub open spec fn storable(t: Seq<char>) -> bool {
    t.len() > 0 && !t.contains('\0')
}

/// Whether a history fits in the file as it is: no more entries than a
/// history holds, each of them storable.
pub open spec fn all_storable(v: Seq<Seq<char>>) -> bool {
    v.len() <= MAX_SEARCH_HISTORY && forall|i: int| 0 <= i < v.len() ==> storable(#[trigger] v[i])
}

/// The entries of the history of kind `which`.
pub open spec fn component(
    e: (Seq<Seq<char>>, Seq<Seq<char>>, Seq<Seq<char>>),
    which: HistoryKind,
) -> Seq<Seq<char>> {
    match which {
        HistoryKind::Search => e.0,
        HistoryKind::Replace => e.1,
        HistoryKind::Execute => e.2,
    }
}

/// The entries `e` with those of the history of kind `which` replaced by `v`.
pub open spec fn with_component(
    e: (Seq<Seq<char>>, Seq<Seq<char>>, Seq<Seq<char>>),
    which: HistoryKind,
    v: Seq<Seq<char>>,
) -> (Seq<Seq<char>>, Seq<Seq<char>>, Seq<Seq<char>>) {
    match which {
        HistoryKind::Search => (v, e.1, e.2),
        HistoryKind::Replace => (e.0, v, e.2),
        HistoryKind::Execute => (e.0, e.1, v),
    }
}

/// The line that the history file holds for the entry `t`.
pub open spec fn entry_line(t: Seq<char>) -> Seq<u8> {
    lf_to_nul(encode_utf8(t)) + seq![0x0Au8]
}

proof fn lemma_scalar_bytes_not_nul(c: u32)
    requires
        is_scalar(c),
        c != 0,
    ensures
        !encode_scalar(c).contains(0u8),
        encode_scalar(c).len() >= 1,
{
    if has_width_1_encoding(c) {
        assert((c & 0x7F) as u8 != 0) by (bit_vector)
            requires
                1 <= c <= 0x7F,
        ;
        assert(encode_scalar(c) =~= seq![leading_byte_width_1(c)]);
    } else {
        assert(forall|x: u8| #[trigger] (0xC0u8 | x) != 0) by (bit_vector);
        assert(forall|x: u8| #[trigger] (0xE0u8 | x) != 0) by (bit_vector);
        assert(forall|x: u8| #[trigger] (0xF0u8 | x) != 0) by (bit_vector);
        assert(forall|x: u8| #[trigger] (0x80u8 | x) != 0) by (bit_vector);
        let e = encode_scalar(c);
        assert forall|k: int| 0 <= k < e.len() implies e[k] != 0u8 by {
            if has_width_2_encoding(c) {
                assert(e =~= seq![leading_byte_width_2(c), last_continuation_byte(c)]);
            } else if has_width_3_encoding(c) {
                assert(e =~= seq![
                    leading_byte_width_3(c),
                    second_last_continuation_byte(c),
                    last_continuation_byte(c),
                ]);
            } else {
                assert(e =~= seq![
                    leading_byte_width_4(c),
                    third_last_continuation_byte(c),
                    second_last_continuation_byte(c),
                    last_continuation_byte(c),
                ]);
            }
        }
    }
}

proof fn lemma_encoding_not_nul(t: Seq<char>)
    requires
        !t.contains('\0'),
    ensures
        !encode_utf8(t).contains(0u8),
        t.len() > 0 ==> encode_utf8(t).len() > 0,
    decreases t.len(),
{
    if t.len() > 0 {
        let rest = t.drop_first();
        assert(!rest.contains('\0')) by {
            if rest.contains('\0') {
                let k = choose|k: int| 0 <= k < rest.len() && rest[k] == '\0';
                assert(t[k + 1] == '\0');
            }
        }
        lemma_encoding_not_nul(rest);
        assert(t[0] != '\0');
        let c = t[0] as u32;
        vstd::utf8::char_is_scalar(t[0]);
        vstd::utf8::char_u32_cast(t[0], c);
        assert(c != 0) by {
            if c == 0 {
                vstd::utf8::char_u32_cast('\0', 0);
            }
        }
        lemma_scalar_bytes_not_nul(c);
        let a = encode_scalar(c);
        let b = encode_utf8(rest);
        assert(encode_utf8(t) =~= a + b);
        assert forall|k: int| 0 <= k < (a + b).len() implies (a + b)[k] != 0u8 by {
            if k < a.len() {
                assert(a[k] != 0u8);
            } else {
                assert(b[k - a.len()] != 0u8);
            }
        }
    }
}

proof fn lemma_line_end_at(b: Seq<u8>, p: int, q: int)
    requires
        0 <= p <= q < b.len(),
        b[q] == 0x0A,
        forall|k: int| p <= k < q ==> b[k] != 0x0A,
    ensures
        line_end(b, p) == q,
    decreases q - p,
{
    if p < q {
        lemma_line_end_at(b, p + 1, q);
    }
}

proof fn lemma_entry_step(
    b: Seq<u8>,
    p: int,
    which: HistoryKind,
    e: (Seq<Seq<char>>, Seq<Seq<char>>, Seq<Seq<char>>),
    t: Seq<char>,
)
    requires
        storable(t),
        0 <= p,
        p + entry_line(t).len() <= b.len(),
        b.subrange(p, p + entry_line(t).len()) == entry_line(t),
    ensures
        loaded(b, p, which, e) == loaded(b, p + entry_line(t).len(), which, add_entry(e, which, t)),
{
    broadcast use vstd::utf8::encode_utf8_valid_utf8, vstd::utf8::encode_utf8_decode_utf8;

    lemma_encoding_not_nul(t);
    let x = lf_to_nul(encode_utf8(t));
    let q = p + x.len();
    assert(b[q] == entry_line(t)[x.len() as int]);
    assert forall|k: int| p <= k < q implies b[k] != 0x0A by {
        assert(b[k] == entry_line(t)[k - p]);
        assert(entry_line(t)[k - p] == x[k - p]);
    }
    lemma_line_end_at(b, p, q);
    assert(b.subrange(p, q) =~= x);
    assert(nul_to_lf(x) =~= encode_utf8(t)) by {
        assert forall|k: int| 0 <= k < x.len() implies nul_to_lf(x)[k] == encode_utf8(t)[k] by {
            let y = encode_utf8(t)[k];
            assert(y != 0u8);
        }
    }
}

proof fn lemma_entries_step(
    b: Seq<u8>,
    p: int,
    which: HistoryKind,
    e: (Seq<Seq<char>>, Seq<Seq<char>>, Seq<Seq<char>>),
    v: Seq<Seq<char>>,
    n: int,
)
    requires
        0 <= n <= v.len(),
        forall|i: int| 0 <= i < n ==> storable(#[trigger] v[i]),
        component(e, which).len() + n <= MAX_SEARCH_HISTORY,
        0 <= p,
        p + list_bytes(v, n).len() <= b.len(),
        b.subrange(p, p + list_bytes(v, n).len()) == list_bytes(v, n),
    ensures
        loaded(b, p, which, e) == loaded(
            b,
            p + list_bytes(v, n).len(),
            which,
            with_component(e, which, component(e, which) + v.subrange(0, n)),
        ),
    decreases n,
{
    if n == 0 {
        assert(component(e, which) + v.subrange(0, 0) =~= component(e, which));
        assert(with_component(e, which, component(e, which)) == e);
    } else {
        let prev = list_bytes(v, n - 1);
        let line = entry_line(v[n - 1]);
        assert(list_bytes(v, n) =~= prev + line);
        assert(b.subrange(p, p + prev.len()) =~= prev) by {
            assert(b.subrange(p, p + prev.len()) =~= b.subrange(p, p + list_bytes(v, n).len()).subrange(
                0,
                prev.len() as int,
            ));
        }
        lemma_entries_step(b, p, which, e, v, n - 1);
        let mid = with_component(e, which, component(e, which) + v.subrange(0, n - 1));
        let q = p + prev.len();
        assert(b.subrange(q, q + line.len()) =~= line) by {
            assert(b.subrange(q, q + line.len()) =~= b.subrange(p, p + list_bytes(v, n).len()).subrange(
                prev.len() as int,
                (prev.len() + line.len()) as int,
            ));
        }
        lemma_entry_step(b, q, which, mid, v[n - 1]);
        let w = component(e, which) + v.subrange(0, n - 1);
        assert(component(mid, which) == w);
        assert(entries_after_update(w, v[n - 1], false) =~= component(e, which) + v.subrange(0, n));
        assert(add_entry(mid, which, v[n - 1]) == with_component(
            e,
            which,
            component(e, which) + v.subrange(0, n),
        ));
    }
}

/// Reading a saved history file gives back the histories that were saved:
/// loading `history_file(e)` into empty histories yields `e`, where no
/// history holds more entries than a history keeps, and every entry is
/// non-empty and free of NUL characters.
pub proof fn lemma_history_file_round_trip(e: (Seq<Seq<char>>, Seq<Seq<char>>, Seq<Seq<char>>))
    requires
        all_storable(e.0),
        all_storable(e.1),
        all_storable(e.2),
    ensures
        loaded(history_file(e), 0, HistoryKind::Search, (Seq::empty(), Seq::empty(), Seq::empty())) == e,
{
    let f = history_file(e);
    let l0 = list_bytes(e.0, e.0.len() as int);
    let l1 = list_bytes(e.1, e.1.len() as int);
    let l2 = list_bytes(e.2, e.2.len() as int);
    let nl = seq![0x0Au8];
    assert(f =~= l0 + nl + l1 + nl + l2);
    let empty: (Seq<Seq<char>>, Seq<Seq<char>>, Seq<Seq<char>>) = (Seq::empty(), Seq::empty(), Seq::empty());
    let p1 = l0.len() as int;
    let p2 = p1 + 1 + l1.len();
    let p3 = p2 + 1 + l2.len();
    assert(p3 == f.len());
    assert(f.subrange(0, p1) =~= l0);
    lemma_entries_step(f, 0, HistoryKind::Search, empty, e.0, e.0.len() as int);
    let e1 = (e.0, Seq::<Seq<char>>::empty(), Seq::<Seq<char>>::empty());
    assert(Seq::<Seq<char>>::empty() + e.0.subrange(0, e.0.len() as int) =~= e.0);
    assert(f[p1] == 0x0A);
    lemma_line_end_at(f, p1, p1);
    assert(loaded(f, p1, HistoryKind::Search, e1) == loaded(f, p1 + 1, HistoryKind::Replace, e1));
    assert(f.subrange(p1 + 1, p1 + 1 + l1.len()) =~= l1);
    lemma_entries_step(f, p1 + 1, HistoryKind::Replace, e1, e.1, e.1.len() as int);
    let e2 = (e.0, e.1, Seq::<Seq<char>>::empty());
    assert(Seq::<Seq<char>>::empty() + e.1.subrange(0, e.1.len() as int) =~= e.1);
    assert(f[p1 + 1 + l1.len()] == 0x0A);
    lemma_line_end_at(f, p1 + 1 + l1.len(), p1 + 1 + l1.len());
    assert(loaded(f, p1 + 1 + l1.len(), HistoryKind::Replace, e2) == loaded(f, p2 + 1, HistoryKind::Execute, e2));
    assert(f.subrange(p2 + 1, p2 + 1 + l2.len()) =~= l2) by {
        assert(p2 + 1 + l2.len() == f.len());
    }
    lemma_entries_step(f, p2 + 1, HistoryKind::Execute, e2, e.2, e.2.len() as int);
    assert(Seq::<Seq<char>>::empty() + e.2.subrange(0, e.2.len() as int) =~= e.2);
}

/// The decimal form of `i`, as characters.
pub open spec fn decimal_text(i: int) -> Seq<char> {
    decimal_of(i).map_values(|b: u8| b as char)
}

/// Whether every byte of `b` is a decimal digit or a minus sign.
pub open spec fn digits_or_minus(b: Seq<u8>) -> bool {
    forall|k: int| 0 <= k < b.len() ==> (#[trigger] b[k] == 0x2D || 0x30 <= b[k] <= 0x39)
}

proof fn lemma_digits_round_trip(n: nat)
    ensures
        digits_of(n).len() >= 1,
        forall|k: int| 0 <= k < digits_of(n).len() ==> 0x30 <= #[trigger] digits_of(n)[k] <= 0x39,
        all_digits(digits_of(n).map_values(|b: u8| b as char)),
        digits_value(digits_of(n).map_values(|b: u8| b as char)) == n,
    decreases n,
{
    let s = digits_of(n).map_values(|b: u8| b as char);
    if n < 10 {
        assert(s.drop_last() =~= Seq::<char>::empty());
        assert(s.last() == ((n + 0x30) as u8) as char);
        assert((((n + 0x30) as u8) as char) as int == n + 0x30);
        assert(digits_value(s) == digits_value(s.drop_last()) * 10 + (s.last() as int - '0' as int));
    } else {
        lemma_digits_round_trip(n / 10);
        let t = digits_of(n / 10).map_values(|b: u8| b as char);
        let d = ((n % 10 + 0x30) as u8);
        assert(digits_of(n) == digits_of(n / 10).push(d));
        assert(s.drop_last() =~= t);
        assert(s.last() == d as char);
        assert((d as char) as int == n % 10 + 0x30);
        assert(digits_value(s) == digits_value(t) * 10 + (s.last() as int - '0' as int));
        assert(n == (n / 10) * 10 + n % 10);
        assert forall|k: int| 0 <= k < digits_of(n).len() implies 0x30 <= #[trigger] digits_of(n)[k] <= 0x39 by {
            if k < digits_of(n / 10).len() {
                assert(digits_of(n)[k] == digits_of(n / 10)[k]);
            }
        }
        assert forall|k: int| 0 <= k < s.len() implies '0' <= #[trigger] s[k] <= '9' by {
            assert(s[k] == digits_of(n)[k] as char);
        }
    }
}

proof fn lemma_decimal_round_trip(i: isize)
    ensures
        spec_parse_isize(decimal_text(i as int)) == Some(i),
        digits_or_minus(decimal_of(i as int)),
        decimal_of(i as int).len() >= 1,
        0x30 <= decimal_of(i as int)[decimal_of(i as int).len() - 1] <= 0x39,
{
    let b = decimal_of(i as int);
    let s = decimal_text(i as int);
    if i < 0 {
        let m = (-(i as int)) as nat;
        lemma_digits_round_trip(m);
        let d = digits_of(m);
        assert(b == seq![0x2Du8] + d);
        assert(s.subrange(1, s.len() as int) =~= d.map_values(|x: u8| x as char));
        assert forall|k: int| 0 <= k < b.len() implies (#[trigger] b[k] == 0x2D || 0x30 <= b[k] <= 0x39) by {
            if k > 0 {
                assert(b[k] == d[k - 1]);
            }
        }
        assert(b[b.len() - 1] == d[d.len() - 1]);
    } else {
        lemma_digits_round_trip(i as nat);
    }
    assert(s.len() == b.len());
    assert(s[0] == b[0] as char);
    assert(!is_ws(s[0]));
    assert(s[s.len() - 1] == b[b.len() - 1] as char);
    assert(!is_ws(s[s.len() - 1]));
    assert(lead_end(s, 0) == 0);
    assert(trail_end(s, s.len() as int) == s.len());
    assert(trimmed(s) =~= s);
}

proof fn lemma_encode_concat(a: Seq<char>, b: Seq<char>)
    ensures
        encode_utf8(a + b) == encode_utf8(a) + encode_utf8(b),
    decreases a.len(),
{
    if a.len() == 0 {
        assert(a + b =~= b);
        assert(encode_utf8(a) =~= Seq::<u8>::empty());
        assert(encode_utf8(a) + encode_utf8(b) =~= encode_utf8(b));
    } else {
        lemma_encode_concat(a.drop_first(), b);
        assert((a + b).drop_first() =~= a.drop_first() + b);
        assert((a + b)[0] == a[0]);
        assert(encode_utf8(a + b) =~= encode_utf8(a) + encode_utf8(b));
    }
}

proof fn lemma_ascii_encode(b: Seq<u8>)
    requires
        forall|k: int| 0 <= k < b.len() ==> #[trigger] b[k] < 0x80,
    ensures
        encode_utf8(b.map_values(|x: u8| x as char)) == b,
{
    broadcast use vstd::utf8::decode_utf8_encode_utf8;

    crate::bytes::lemma_ascii_utf8(b);
}

/// Whether `p` begins the way a path in the positions register is
/// recognized: with a slash, two backslashes, or a drive letter, a colon and
/// a (back)slash.
pub open spec fn path_like(p: Seq<char>) -> bool {
    ||| p.len() > 0 && p[0] == '/'
    ||| p.len() > 1 && p[0] == '\\' && p[1] == '\\'
    ||| p.len() > 2 && (('A' <= p[0] <= 'Z') || ('a' <= p[0] <= 'z')) && p[1] == ':' && (p[2] == '\\'
        || p[2] == '/')
}

/// Whether `a` is a non-empty list of anchor line numbers: digits and
/// spaces only.
pub open spec fn anchor_like(a: Seq<char>) -> bool {
    a.len() > 0 && forall|k: int| 0 <= k < a.len() ==> (#[trigger] a[k] == ' ' || '0' <= a[k] <= '9')
}

/// Whether the positions register keeps the record `r` as it is: its path
/// is recognized as a path and holds no NUL character, and its anchors (if
/// any) are anchor line numbers.
pub open spec fn storable_record(r: (Seq<char>, isize, isize, Option<Seq<char>>)) -> bool {
    &&& path_like(r.0)
    &&& !r.0.contains('\0')
    &&& match r.3 {
        Some(a) => anchor_like(a),
        None => true,
    }
}

proof fn lemma_last_space_at(s: Seq<char>, j: int, end: int)
    requires
        0 <= j < end <= s.len(),
        s[j] == ' ',
        forall|k: int| j < k < end ==> s[k] != ' ',
    ensures
        last_space_before(s, end) == Some(j),
    decreases end - j,
{
    if end - 1 > j {
        lemma_last_space_at(s, j, end - 1);
    }
}

proof fn lemma_path_start_at(b: Seq<u8>, i: int, j: int)
    requires
        0 <= i <= j < b.len(),
        forall|k: int| i <= k < j ==> !path_starts_at(b, k),
        path_starts_at(b, j),
    ensures
        path_start_from(b, i) == Some(j),
    decreases j - i,
{
    if i < j {
        lemma_path_start_at(b, i + 1, j);
    }
}

/// The text of a record's line after its anchors: the path, the line and
/// the column, separated by spaces.
pub open spec fn record_text(r: (Seq<char>, isize, isize, Option<Seq<char>>)) -> Seq<char> {
    r.0 + seq![' '] + decimal_text(r.1 as int) + seq![' '] + decimal_text(r.2 as int)
}

/// The bytes of a record's anchors.
pub open spec fn record_anchor_bytes(r: (Seq<char>, isize, isize, Option<Seq<char>>)) -> Seq<u8> {
    match r.3 {
        Some(a) => encode_utf8(a),
        None => Seq::<u8>::empty(),
    }
}

/// The bytes of a record's line before its line feed.
pub open spec fn record_body(r: (Seq<char>, isize, isize, Option<Seq<char>>)) -> Seq<u8> {
    let l = record_line(r);
    l.subrange(0, l.len() - 1)
}

proof fn lemma_record_text_bytes(r: (Seq<char>, isize, isize, Option<Seq<char>>))
    requires
        storable_record(r),
    ensures
        encode_utf8(record_text(r)) == encode_utf8(r.0) + seq![0x20u8] + decimal_of(r.1 as int)
            + seq![0x20u8] + decimal_of(r.2 as int),
        !encode_utf8(record_text(r)).contains(0u8),
{
    let p = r.0;
    let d1 = decimal_text(r.1 as int);
    let d2 = decimal_text(r.2 as int);
    lemma_decimal_round_trip(r.1);
    lemma_decimal_round_trip(r.2);
    let b1 = decimal_of(r.1 as int);
    let b2 = decimal_of(r.2 as int);
    lemma_ascii_encode(b1);
    lemma_ascii_encode(b2);
    lemma_ascii_encode(seq![0x20u8]);
    assert(seq![0x20u8].map_values(|x: u8| x as char) =~= seq![' ']);
    lemma_encode_concat(p, seq![' ']);
    lemma_encode_concat(p + seq![' '], d1);
    lemma_encode_concat(p + seq![' '] + d1, seq![' ']);
    lemma_encode_concat(p + seq![' '] + d1 + seq![' '], d2);
    let x = encode_utf8(p) + seq![0x20u8] + b1 + seq![0x20u8] + b2;
    lemma_encoding_not_nul(p);
    let ep = encode_utf8(p);
    assert forall|k: int| 0 <= k < x.len() implies #[trigger] x[k] != 0u8 by {
        if k < ep.len() {
            assert(x[k] == ep[k]);
        } else if k == ep.len() {
        } else if k < ep.len() + 1 + b1.len() {
            assert(x[k] == b1[k - ep.len() - 1]);
        } else if k == ep.len() + 1 + b1.len() {
        } else {
            assert(x[k] == b2[k - ep.len() - 2 - b1.len()]);
        }
    }
}

proof fn lemma_record_anchor_bytes(r: (Seq<char>, isize, isize, Option<Seq<char>>))
    requires
        storable_record(r),
    ensures
        forall|k: int| 0 <= k < record_anchor_bytes(r).len() ==> (#[trigger] record_anchor_bytes(r)[k] == 0x20 || 0x30
            <= record_anchor_bytes(r)[k] <= 0x39),
        r.3 is Some <==> record_anchor_bytes(r).len() > 0,
        r.3 matches Some(a) ==> text_of_line(record_anchor_bytes(r)) == a,
{
    broadcast use vstd::utf8::encode_utf8_valid_utf8, vstd::utf8::encode_utf8_decode_utf8,
        vstd::utf8::is_ascii_chars_encode_utf8;

    match r.3 {
        Some(a) => {
            assert(is_ascii_chars(a));
            assert forall|k: int| 0 <= k < record_anchor_bytes(r).len() implies (#[trigger] record_anchor_bytes(r)[k] == 0x20
                || 0x30 <= record_anchor_bytes(r)[k] <= 0x39) by {
                assert(record_anchor_bytes(r)[k] == a[k] as u8);
            }
        },
        None => {},
    }
}

proof fn lemma_path_begins(p: Seq<char>, tail: Seq<u8>, k: int)
    requires
        path_like(p),
        0 <= k,
        k + 3 <= (encode_utf8(p) + tail).len(),
    ensures
        ({
            let b = encode_utf8(p) + tail;
            &&& p[0] == '/' ==> b[0] == 0x2F
            &&& p.len() > 1 && p[0] == '\\' && p[1] == '\\' ==> b[0] == 0x5C && b[1] == 0x5C
            &&& p.len() > 2 && (('A' <= p[0] <= 'Z') || ('a' <= p[0] <= 'z')) && p[1] == ':' && (p[2]
                == '\\' || p[2] == '/') ==> b[0] == p[0] as u8 && b[1] == 0x3A && b[2] == p[2] as u8
        }),
{
    broadcast use vstd::utf8::is_ascii_chars_encode_utf8;

    let n = if p.len() > 2 {
        3int
    } else if p.len() > 1 {
        2int
    } else {
        1int
    };
    let head = p.subrange(0, n);
    assert(p =~= head + p.subrange(n, p.len() as int));
    lemma_encode_concat(head, p.subrange(n, p.len() as int));
    if p[0] == '/' {
        let h1 = p.subrange(0, 1);
        assert(p =~= h1 + p.subrange(1, p.len() as int));
        lemma_encode_concat(h1, p.subrange(1, p.len() as int));
        assert(is_ascii_chars(h1));
        assert(encode_utf8(h1)[0] == '/' as u8);
    } else if p.len() > 1 && p[0] == '\\' && p[1] == '\\' {
        let h2 = p.subrange(0, 2);
        assert(p =~= h2 + p.subrange(2, p.len() as int));
        lemma_encode_concat(h2, p.subrange(2, p.len() as int));
        assert(is_ascii_chars(h2));
        assert(encode_utf8(h2)[0] == '\\' as u8);
        assert(encode_utf8(h2)[1] == '\\' as u8);
    } else {
        let h3 = p.subrange(0, 3);
        assert(p =~= h3 + p.subrange(3, p.len() as int));
        lemma_encode_concat(h3, p.subrange(3, p.len() as int));
        assert(is_ascii_chars(h3));
        assert(encode_utf8(h3)[0] == p[0] as u8);
        assert(encode_utf8(h3)[1] == ':' as u8);
        assert(encode_utf8(h3)[2] == p[2] as u8);
    }
}

proof fn lemma_record_text_splits(r: (Seq<char>, isize, isize, Option<Seq<char>>))
    requires
        storable_record(r),
    ensures
        ({
            let c = record_text(r);
            let cs = c.len() - 1 - decimal_text(r.2 as int).len();
            let ls = r.0.len() as int;
            &&& 0 < ls < cs < c.len()
            &&& last_space_before(c, c.len() as int) == Some(cs)
            &&& last_space_before(c, cs) == Some(ls)
            &&& c.subrange(0, ls) == r.0
            &&& spec_parse_isize(c.subrange(ls + 1, cs)) == Some(r.1)
            &&& spec_parse_isize(c.subrange(cs + 1, c.len() as int)) == Some(r.2)
        }),
{
    let p = r.0;
    let d1 = decimal_text(r.1 as int);
    let d2 = decimal_text(r.2 as int);
    lemma_decimal_round_trip(r.1);
    lemma_decimal_round_trip(r.2);
    let b1 = decimal_of(r.1 as int);
    let b2 = decimal_of(r.2 as int);
    let c = record_text(r);
    let cs = c.len() - 1 - d2.len();
    let ls = p.len() as int;
    assert forall|k: int| cs < k < c.len() implies c[k] != ' ' by {
        assert(c[k] == d2[k - cs - 1]);
        assert(d2[k - cs - 1] == b2[k - cs - 1] as char);
    }
    assert(c[cs] == ' ');
    lemma_last_space_at(c, cs, c.len() as int);
    assert forall|k: int| ls < k < cs implies c[k] != ' ' by {
        assert(c[k] == d1[k - ls - 1]);
        assert(d1[k - ls - 1] == b1[k - ls - 1] as char);
    }
    assert(c[ls] == ' ');
    lemma_last_space_at(c, ls, cs);
    assert(c.subrange(ls + 1, cs) =~= d1);
    assert(c.subrange(cs + 1, c.len() as int) =~= d2);
    assert(c.subrange(0, ls) =~= p);
}

proof fn lemma_record_parses(r: (Seq<char>, isize, isize, Option<Seq<char>>))
    requires
        storable_record(r),
    ensures
        spec_parse_record(record_body(r)) == Some(r),
        record_line(r).len() >= 2,
        record_line(r)[record_line(r).len() - 1] == 0x0A,
        forall|k: int| 0 <= k < record_line(r).len() - 1 ==> #[trigger] record_line(r)[k] != 0x0A,
{
    let c = record_text(r);
    lemma_record_text_bytes(r);
    lemma_record_anchor_bytes(r);
    lemma_record_text_splits(r);
    let x = encode_utf8(c);
    let a_bytes = record_anchor_bytes(r);
    let al = a_bytes.len() as int;
    let body = a_bytes + lf_to_nul(x);
    let line = record_line(r);
    assert(line =~= body + seq![0x0Au8]);
    assert(record_body(r) =~= body);
    // The path starts right after the anchors.
    assert forall|k: int| 0 <= k < al implies !path_starts_at(body, k) by {
        assert(body[k] == a_bytes[k]);
    }
    let ep = encode_utf8(r.0);
    let rest = seq![0x20u8] + decimal_of(r.1 as int) + seq![0x20u8] + decimal_of(r.2 as int);
    assert(x =~= ep + rest);
    lemma_path_begins(r.0, rest, 0);
    assert(x.len() >= 5);
    assert(path_starts_at(body, al)) by {
        assert(body[al] == lf_to_nul(x)[0]);
        assert(body[al + 1] == lf_to_nul(x)[1]);
        assert(body[al + 2] == lf_to_nul(x)[2]);
        if r.0[0] == '/' {
            assert(x[0] == 0x2F);
        } else if r.0.len() > 1 && r.0[0] == '\\' && r.0[1] == '\\' {
            assert(x[0] == 0x5C && x[1] == 0x5C);
        } else {
            assert(x[1] == 0x3A);
        }
    }
    lemma_path_start_at(body, 0, al);
    // The text after the anchors decodes to the path, the line and the column.
    assert(body.subrange(al, body.len() as int) =~= lf_to_nul(x));
    assert(nul_to_lf(lf_to_nul(x)) =~= x) by {
        assert forall|k: int| 0 <= k < x.len() implies nul_to_lf(lf_to_nul(x))[k] == x[k] by {
            assert(x[k] != 0u8);
        }
    }
    assert(text_of_line(x) == c) by {
        broadcast use vstd::utf8::encode_utf8_valid_utf8, vstd::utf8::encode_utf8_decode_utf8;

    }
    match r.3 {
        Some(a) => {
            assert(body.subrange(0, al) =~= a_bytes);
        },
        None => {},
    }
    // No line feed before the end of the line.
    assert forall|k: int| 0 <= k < line.len() - 1 implies #[trigger] line[k] != 0x0A by {
        if k < al {
            assert(line[k] == a_bytes[k]);
        } else {
            assert(line[k] == lf_to_nul(x)[k - al]);
        }
    }
}

/// The lines of the positions register for the records `v[i..n]`.
pub open spec fn lines_from(v: Seq<(Seq<char>, isize, isize, Option<Seq<char>>)>, i: int, n: int) -> Seq<u8>
    decreases n - i,
{
    if i < 0 || i >= n {
        Seq::empty()
    } else {
        record_line(v[i]) + lines_from(v, i + 1, n)
    }
}

proof fn lemma_lines_from_last(v: Seq<(Seq<char>, isize, isize, Option<Seq<char>>)>, i: int, n: int)
    requires
        0 <= i < n,
    ensures
        lines_from(v, i, n) == lines_from(v, i, n - 1) + record_line(v[n - 1]),
    decreases n - i,
{
    if i == n - 1 {
        assert(lines_from(v, n, n) =~= Seq::<u8>::empty());
        assert(lines_from(v, i, n - 1) =~= Seq::<u8>::empty());
        assert(lines_from(v, i, n) =~= lines_from(v, i, n - 1) + record_line(v[n - 1]));
    } else {
        lemma_lines_from_last(v, i + 1, n);
        assert(lines_from(v, i, n) =~= lines_from(v, i, n - 1) + record_line(v[n - 1]));
    }
}

proof fn lemma_register_bytes_from_front(v: Seq<(Seq<char>, isize, isize, Option<Seq<char>>)>, n: int)
    requires
        0 <= n <= v.len(),
    ensures
        register_bytes(v, n) == lines_from(v, 0, n),
    decreases n,
{
    if n > 0 {
        lemma_register_bytes_from_front(v, n - 1);
        lemma_lines_from_last(v, 0, n);
    } else {
        assert(lines_from(v, 0, 0) =~= Seq::<u8>::empty());
    }
}

proof fn lemma_register_reads(
    b: Seq<u8>,
    start: int,
    count: int,
    v: Seq<(Seq<char>, isize, isize, Option<Seq<char>>)>,
    i: int,
    n: int,
)
    requires
        0 <= i <= n <= v.len(),
        forall|k: int| i <= k < n ==> storable_record(#[trigger] v[k]),
        0 <= count,
        count + (n - i) <= 200,
        0 <= start <= b.len(),
        b.subrange(start, b.len() as int) == lines_from(v, i, n),
    ensures
        register_records(b, start, count) == v.subrange(i, n),
    decreases n - i,
{
    if i == n {
        assert(lines_from(v, i, n) =~= Seq::<u8>::empty());
        assert(start == b.len());
        assert(v.subrange(i, n) =~= Seq::<(Seq<char>, isize, isize, Option<Seq<char>>)>::empty());
    } else {
        let l = record_line(v[i]);
        lemma_record_parses(v[i]);
        let e = start + l.len() - 1;
        assert(lines_from(v, i, n) == l + lines_from(v, i + 1, n));
        assert(b.len() - start == l.len() + lines_from(v, i + 1, n).len());
        assert(b.subrange(start, start + l.len()) =~= l) by {
            assert(b.subrange(start, start + l.len()) =~= b.subrange(start, b.len() as int).subrange(
                0,
                l.len() as int,
            ));
        }
        assert forall|k: int| start <= k < e implies b[k] != 0x0A by {
            assert(b[k] == b.subrange(start, start + l.len())[k - start]);
            assert(b[k] == l[k - start]);
        }
        assert(b[e] == b.subrange(start, start + l.len())[l.len() - 1]);
        assert(b[e] == l[l.len() - 1]);
        lemma_line_end_at(b, start, e);
        assert(b.subrange(start, e) =~= record_body(v[i]));
        assert(b.subrange(start + l.len(), b.len() as int) =~= lines_from(v, i + 1, n)) by {
            assert(b.subrange(start + l.len(), b.len() as int) =~= b.subrange(start, b.len() as int).subrange(
                l.len() as int,
                (b.len() - start) as int,
            ));
        }
        lemma_register_reads(b, start + l.len(), count + 1, v, i + 1, n);
        assert(v.subrange(i, n) =~= seq![v[i]] + v.subrange(i + 1, n));
    }
}

/// Reading the positions register gives back the records that were written
/// to it: the register written for the first `n` records of `v` (at most
/// 200, as many as it holds) reads back as exactly those records, where each
/// has a path that starts like a path and holds no NUL character, and
/// anchors (if any) made of line numbers.
pub proof fn lemma_register_round_trip(v: Seq<(Seq<char>, isize, isize, Option<Seq<char>>)>, n: int)
    requires
        0 <= n <= v.len(),
        n <= 200,
        forall|k: int| 0 <= k < n ==> storable_record(#[trigger] v[k]),
    ensures
        register_records(register_bytes(v, n), 0, 0) == v.subrange(0, n),
{
    let b = register_bytes(v, n);
    lemma_register_bytes_from_front(v, n);
    assert(b.subrange(0, b.len() as int) =~= b);
    lemma_register_reads(b, 0, 0, v, 0, n);
}

/// The recorded cursor positions of files, and the stamp of the version of
/// the register file that they were read from (none before a first read).
pub struct PositionsRegister {
    pub records: Vec<PositionRecord>,
    pub latest: Option<PositionFileStamp>,
}

/// What an attempt to read the register file gave: no such file, an error,
/// or its contents with their stamp.
pub enum RegisterRead {
    NotFound,
    Failed,
    Read(Vec<u8>, PositionFileStamp),
}

/// Whether `a` is the stamp `b`.
pub open spec fn stamps_equal(a: PositionFileStamp, b: PositionFileStamp) -> bool {
    a.modified == b.modified && a.metadata_len == b.metadata_len && a.digest@ == b.digest@
}

/// Bring the register up to date with what reading its file gave: a file
/// that has gone empties a register that was read before; a read error
/// changes nothing; a version with the stamp last read changes nothing;
/// another version replaces the records and the stamp.
pub fn reload_positions_if_needed(reg: &mut PositionsRegister, read: RegisterRead)
    ensures
        read is NotFound ==> (old(reg).latest is Some ==> final(reg).records@.len() == 0 && final(reg).latest is None)
            && (old(reg).latest is None ==> *final(reg) == *old(reg)),
        read is Failed ==> *final(reg) == *old(reg),
        read matches RegisterRead::Read(bytes, stamp) ==> if old(reg).latest is Some && stamps_equal(
            old(reg).latest.unwrap(),
            stamp,
        ) {
            *final(reg) == *old(reg)
        } else {
            records_view(final(reg).records@) == register_records(bytes@, 0, 0) && final(reg).latest == Some(stamp)
        },
{
    match read {
        RegisterRead::NotFound => {
            if reg.latest.is_some() {
                reg.records = Vec::new();
                reg.latest = None;
            }
        },
        RegisterRead::Failed => {},
        RegisterRead::Read(bytes, stamp) => {
            let unchanged = match &reg.latest {
                Some(l) => same_stamp(l, &stamp),
                None => false,
            };
            if !unchanged {
                reg.records = records_from_position_bytes(bytes.as_slice());
                reg.latest = Some(stamp);
            }
        },
    }
}

} // verus!
