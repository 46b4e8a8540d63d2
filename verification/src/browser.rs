//! The file browser's list: the names in the directory being browsed, how
//! they are laid out in columns, which one is selected, and the search for
//! a name in the list.
use vstd::prelude::*;
use crate::chars::{breadth, breadth_from, spec_mbstrlen, contains_bytes};
use crate::strfind::{mbstrcasestr, scan_with, casestr_hit, char_step, lower_seq};
use crate::history::{Histories, HistoryKind, entries, history_of, update_history};
use crate::definitions::{PRUNE_DUPLICATE, Func, KeyStruct, MBROWSER, NO_HELP};
use crate::global::{Shortcuts, first_key_index, shortcut_toggle_for};
use crate::help::{implant_index, find_implant};
use vstd::string::{StrSliceExecFns, StringSliceAdditionalSpecFns};
use vstd::utf8::encode_utf8;

verus! {

/// The last index in `s` before `end` that holds `c`.
pub open spec fn last_index_of(s: Seq<char>, c: char, end: int) -> Option<int>
    decreases end,
{
    if end <= 0 {
        None
    } else if s[end - 1] == c {
        Some(end - 1)
    } else {
        last_index_of(s, c, end - 1)
    }
}

/// The index of the last '/' in `path`, if any.
fn last_slash(path: &str) -> (r: Option<usize>)
    ensures
        r matches Some(i) ==> last_index_of(path@, '/', path@.len() as int) == Some(i as int)
            && i < path@.len(),
        r is None ==> last_index_of(path@, '/', path@.len() as int) is None,
{
    let n = path.unicode_len();
    let mut end: usize = n;
    while end > 0
        invariant
            n == path@.len(),
            end <= n,
            last_index_of(path@, '/', n as int) == last_index_of(path@, '/', end as int),
        decreases end,
    {
        if path.get_char(end - 1) == '/' {
            return Some(end - 1);
        }
        end = end - 1;
    }
    None
}

/// The last component of `path`: what follows its last '/', or all of it.
pub open spec fn tail_of(path: Seq<char>) -> Seq<char> {
    match last_index_of(path, '/', path.len() as int) {
        Some(i) => path.subrange(i + 1, path.len() as int),
        None => path,
    }
}

/// The last component of `path` (see `tail_of`).
pub fn tail(path: &str) -> (r: &str)
    ensures
        r@ == tail_of(path@),
{
    let n = path.unicode_len();
    match last_slash(path) {
        Some(i) => path.substring_char(i + 1, n),
        None => path,
    }
}

/// `path` without its last component: what comes before its last '/', or
/// all of it where it has none.
pub open spec fn stripped_path(path: Seq<char>) -> Seq<char> {
    match last_index_of(path, '/', path.len() as int) {
        Some(i) => path.subrange(0, i),
        None => path,
    }
}

/// Strip the last component from `path` (see `stripped_path`).  For a path
/// like "/foo" that leaves nothing, so that the browser falls back to the
/// working directory.
pub fn strip_last_component(path: &str) -> (r: String)
    ensures
        r@ == stripped_path(path@),
{
    match last_slash(path) {
        Some(i) => String::from_str(path.substring_char(0, i)),
        None => String::from_str(path),
    }
}

/// The list of the file browser: the names, how many rows of the screen it
/// may use, how many names fit on a row, how wide a column is, and which
/// name is selected.
pub struct Browser {
    pub filelist: Vec<String>,
    pub usable_rows: usize,
    pub piles: i32,
    pub gauge: i32,
    pub selected: usize,
}

impl Browser {
    /// The selection lies within the list (or is zero for an empty list).
    pub open spec fn wf(&self) -> bool {
        self.selected < self.filelist@.len() || self.selected == 0
    }

    /// An empty list.
    pub fn new() -> (r: Self)
        ensures
            r.wf(),
            r.filelist@.len() == 0,
            r.selected == 0,
    {
        Browser { filelist: Vec::new(), usable_rows: 0, piles: 0, gauge: 0, selected: 0 }
    }
}

/// The width of the widest last component among the first `n` names.
pub open spec fn widest_name(v: Seq<String>, n: int, utf8: bool, tabsize: int) -> int
    decreases n,
{
    if n <= 0 {
        0
    } else {
        let w = breadth_from(encode_utf8(tail_of(v[n - 1]@)), 0, 0, utf8, tabsize);
        let rest = widest_name(v, n - 1, utf8, tabsize);
        if w > rest {
            w
        } else {
            rest
        }
    }
}

/// The width of a column for names at most `widest` wide: ten more for the
/// blanks and the size, at least fifteen for ".. (parent dir)", and at
/// most the width of the screen.
pub open spec fn gauge_for(widest: int, cols: int) -> int {
    let g = (widest + 10) as i32 as int;
    let g = if g < 15 { 15 } else { g };
    if g > cols {
        cols
    } else {
        g
    }
}

/// How many columns of width `gauge` fit on a screen `cols` wide, with two
/// blanks between them and room for two beyond the edge; at least one.
pub open spec fn piles_for(gauge: int, cols: int) -> int {
    let p = if gauge + 2 > 0 {
        (cols + 2) / (gauge + 2)
    } else {
        1
    };
    if p < 1 {
        1
    } else {
        p
    }
}

/// Take `entries` as the new list of names, and work out the width of a
/// column, how many columns fit on the screen, and how many rows the list
/// may use: the rows of the edit window, less one where the interface is
/// hidden and the screen has more than one line, and at least one.
pub fn read_the_list(
    b: &mut Browser,
    _path: &str,
    entries: Vec<String>,
    cols: u16,
    editwinrows: i32,
    zero: bool,
    lines: i32,
    utf8: bool,
    tabsize: usize,
)
    requires
        tabsize > 0,
        editwinrows > i32::MIN,
        forall|i: int| 0 <= i < entries@.len() ==> breadth_from(
            encode_utf8(tail_of(#[trigger] entries@[i]@)),
            0,
            0,
            utf8,
            tabsize as int,
        ) + tabsize + 3 <= usize::MAX,
    ensures
        final(b).filelist@ == entries@,
        final(b).gauge == gauge_for(widest_name(entries@, entries@.len() as int, utf8, tabsize as int), cols as int),
        final(b).piles == piles_for(final(b).gauge as int, cols as int),
        final(b).usable_rows == ({
            let u = (editwinrows - if zero && lines > 1 { 1int } else { 0int }) as usize;
            if u < 1 { 1 } else { u }
        }),
        final(b).selected == old(b).selected,
{
    let n = entries.len();
    let mut widest: usize = 0;
    let mut i: usize = 0;
    while i < n
        invariant
            n == entries@.len(),
            i <= n,
            tabsize > 0,
            widest == widest_name(entries@, i as int, utf8, tabsize as int),
            forall|j: int| 0 <= j < entries@.len() ==> breadth_from(
                encode_utf8(tail_of(#[trigger] entries@[j]@)),
                0,
                0,
                utf8,
                tabsize as int,
            ) + tabsize + 3 <= usize::MAX,
        decreases n - i,
    {
        let name = tail(entries[i].as_str());
        assert(name.spec_bytes() == encode_utf8(tail_of(entries@[i as int]@)));
        let span = breadth(name, utf8, tabsize);
        if span > widest {
            widest = span;
        }
        i = i + 1;
    }
    let mut gauge: i32 = (widest as u128 + 10) as i32;
    if gauge < 15 {
        gauge = 15;
    }
    let c: i32 = cols as i32;
    if gauge > c {
        gauge = c;
    }
    b.filelist = entries;
    b.gauge = gauge;
    let mut piles: i32 = if gauge + 2 > 0 {
        (c + 2) / (gauge + 2)
    } else {
        1
    };
    if piles < 1 {
        piles = 1;
    }
    b.piles = piles;
    let d: i32 = if zero && lines > 1 {
        1
    } else {
        0
    };
    let mut usable: usize = (editwinrows - d) as usize;
    if usable < 1 {
        usable = 1;
    }
    b.usable_rows = usable;
}

/// Where the selection goes when the list has been read anew: to `name`
/// where the list still has it, else one up (or to the last name where the
/// selection lay beyond the end).
pub open spec fn reselected(v: Seq<String>, selected: int, name: Seq<char>) -> int {
    match first_name_index(v, name, 0) {
        Some(i) => i,
        None => if selected > v.len() {
            if v.len() > 0 {
                v.len() - 1
            } else {
                0
            }
        } else if selected > 0 {
            selected - 1
        } else {
            0
        },
    }
}

/// The index of the first entry from `i` on that is `name`.
pub open spec fn first_name_index(v: Seq<String>, name: Seq<char>, i: int) -> Option<int>
    decreases v.len() - i,
{
    if i < 0 || i >= v.len() {
        None
    } else if v[i]@ == name {
        Some(i)
    } else {
        first_name_index(v, name, i + 1)
    }
}

/// Select `name` again, if it is still in the list (see `reselected`).
pub fn reselect(b: &mut Browser, name: &str)
    ensures
        final(b).selected == reselected(old(b).filelist@, old(b).selected as int, name@),
        final(b).filelist == old(b).filelist,
        final(b).gauge == old(b).gauge,
        final(b).piles == old(b).piles,
        final(b).usable_rows == old(b).usable_rows,
{
    let n = b.filelist.len();
    let mut i: usize = 0;
    while i < n
        invariant
            n == b.filelist@.len(),
            i <= n,
            *b == *old(b),
            first_name_index(b.filelist@, name@, 0) == first_name_index(b.filelist@, name@, i as int),
        decreases n - i,
    {
        if string_eq(b.filelist[i].as_str(), name) {
            b.selected = i;
            return;
        }
        i = i + 1;
    }
    if b.selected > n {
        b.selected = if n > 0 {
            n - 1
        } else {
            0
        };
    } else if b.selected > 0 {
        b.selected = b.selected - 1;
    }
}

/// Whether the text of `s` is `t`.
pub(crate) fn string_eq(a: &str, t: &str) -> (r: bool)
    ensures
        r == (a@ == t@),
{
    let n = a.unicode_len();
    let m = t.unicode_len();
    if n != m {
        return false;
    }
    let mut i: usize = 0;
    while i < n
        invariant
            n == a@.len(),
            m == t@.len(),
            n == m,
            i <= n,
            forall|j: int| 0 <= j < i ==> a@[j] == t@[j],
        decreases n - i,
    {
        if a.get_char(i) != t.get_char(i) {
            return false;
        }
        i = i + 1;
    }
    assert(a@ =~= t@);
    true
}

/// Select the first name.
pub fn to_first_file(b: &mut Browser)
    ensures
        final(b).selected == 0,
        final(b).filelist == old(b).filelist,
{
    b.selected = 0;
}

/// Select the last name, if there is one.
pub fn to_last_file(b: &mut Browser)
    ensures
        old(b).filelist@.len() > 0 ==> final(b).selected == old(b).filelist@.len() - 1,
        old(b).filelist@.len() == 0 ==> final(b).selected == old(b).selected,
        final(b).filelist == old(b).filelist,
{
    let n = b.filelist.len();
    if n > 0 {
        b.selected = n - 1;
    }
}


/// Whether a case-insensitive search for `needle` in `h` finds something,
/// as `mbstrcasestr` searches.
pub open spec fn found_in(h: Seq<u8>, needle: Seq<u8>, utf8: bool) -> bool {
    if utf8 {
        scan_with(h, 0, casestr_hit(h, needle, spec_mbstrlen(needle, true)), char_step(h, true)) is Some
    } else {
        contains_bytes(lower_seq(h), lower_seq(needle))
    }
}

/// Whether `needle` occurs in `name`, without regard to case.
fn name_has(name: &str, needle: &str, utf8: bool) -> (r: bool)
    ensures
        r == found_in(name.spec_bytes(), needle.spec_bytes(), utf8),
{
    let r = mbstrcasestr(name, needle, utf8);
    r.is_some()
}

/// How a search in the file list ended: nothing was searched for, the
/// search was cancelled or had no text, a name was found (after wrapping
/// around the end of the list, or as the only one that matches), or none
/// was.
#[derive(Clone, Copy, Debug, PartialEq, Eq, Structural)]
pub enum SearchOutcome {
    Nothing,
    Cancelled,
    NoPattern,
    Found,
    Wrapped,
    OnlyOccurrence,
    NotFound,
}

/// The index that a search from `start` reaches after `k` steps through a
/// list of `len` names, wrapping around at the ends.
pub open spec fn step_pos(start: int, k: int, len: int, forwards: bool) -> int {
    if forwards {
        if start + k < len {
            start + k
        } else {
            start + k - len
        }
    } else if k <= start {
        start - k
    } else {
        start + len - k
    }
}

/// Whether the last component of name `p` of the list holds `needle`.
pub open spec fn hit_at(v: Seq<String>, needle: Seq<u8>, utf8: bool, p: int) -> bool {
    found_in(encode_utf8(tail_of(v[p]@)), needle, utf8)
}

/// The first number of steps, from `k` to the length of the list, after
/// which a search from `start` reaches a name that holds `needle`.
pub open spec fn first_hit(v: Seq<String>, needle: Seq<u8>, utf8: bool, start: int, forwards: bool, k: int) -> Option<int>
    decreases v.len() + 1 - k,
{
    if k < 1 || k > v.len() {
        None
    } else if hit_at(v, needle, utf8, step_pos(start, k, v.len() as int, forwards)) {
        Some(k)
    } else {
        first_hit(v, needle, utf8, start, forwards, k + 1)
    }
}

/// Where the selection goes, and how the search ends, when the list is
/// searched for `needle` from the name after (or before) `start`: the first
/// name whose last component holds the needle, the search wrapping around
/// and ending back at `start`.
pub open spec fn find_result(v: Seq<String>, needle: Seq<u8>, utf8: bool, start: int, forwards: bool) -> (int, SearchOutcome) {
    let len = v.len() as int;
    if len == 0 {
        (start, SearchOutcome::Nothing)
    } else {
        match first_hit(v, needle, utf8, start, forwards, 1) {
            Some(k) => (
                step_pos(start, k, len, forwards),
                if k == len {
                    SearchOutcome::OnlyOccurrence
                } else if (if forwards { start + k >= len } else { k > start }) {
                    SearchOutcome::Wrapped
                } else {
                    SearchOutcome::Found
                },
            ),
            None => (start, SearchOutcome::NotFound),
        }
    }
}


/// The index after (or before) `sel` in a list of `len` names, wrapping
/// around at the ends, and whether it wrapped.
fn next_pos(sel: usize, len: usize, forwards: bool) -> (r: (usize, bool))
    requires
        sel < len,
    ensures
        forwards ==> r == if sel == len - 1 { (0usize, true) } else { ((sel + 1) as usize, false) },
        !forwards ==> r == if sel == 0 { ((len - 1) as usize, true) } else { ((sel - 1) as usize, false) },
{
    if forwards {
        if sel == len - 1 {
            (0, true)
        } else {
            (sel + 1, false)
        }
    } else {
        if sel == 0 {
            (len - 1, true)
        } else {
            (sel - 1, false)
        }
    }
}

/// One more step of a search moves one name on (or back), wrapping around;
/// it comes back to the start only after as many steps as there are names,
/// and it wraps exactly at the step that passes the end.
pub proof fn lemma_step(start: int, k: int, len: int, forwards: bool)
    requires
        0 <= start < len,
        0 <= k < len,
    ensures
        ({
            let sp = step_pos(start, k, len, forwards);
            let sn = step_pos(start, k + 1, len, forwards);
            &&& 0 <= sp < len
            &&& 0 <= sn < len
            &&& forwards ==> sn == if sp == len - 1 { 0 } else { sp + 1 }
            &&& !forwards ==> sn == if sp == 0 { len - 1 } else { sp - 1 }
            &&& (sn == start <==> k + 1 == len)
            &&& (forwards ==> ((sp == len - 1) <==> start + k + 1 == len))
            &&& (!forwards ==> ((sp == 0) <==> k == start))
        }),
{
}

/// Search the list for a name that holds `needle` (see `find_result`).
#[verifier::rlimit(30)]
pub fn findfile(b: &mut Browser, needle: &str, forwards: bool, utf8: bool) -> (r: SearchOutcome)
    requires
        old(b).wf(),
    ensures
        (final(b).selected as int, r) == find_result(old(b).filelist@, needle.spec_bytes(), utf8, old(b).selected as int, forwards),
        final(b).filelist == old(b).filelist,
        final(b).gauge == old(b).gauge,
        final(b).piles == old(b).piles,
        final(b).usable_rows == old(b).usable_rows,
        final(b).wf(),
{
    let len = b.filelist.len();
    if len == 0 {
        return SearchOutcome::Nothing;
    }
    let began = b.selected;
    let mut sel: usize = began;
    let mut wrapped = false;
    let mut k: usize = 0;
    let ghost v = b.filelist@;
    let ghost nb = needle.spec_bytes();
    while k < len
        invariant
            len == v.len(),
            v == b.filelist@,
            nb == needle.spec_bytes(),
            *b == *old(b),
            began == old(b).selected,
            began < len,
            k <= len,
            k < len,
            sel == step_pos(began as int, k as int, len as int, forwards),
            wrapped == (k > 0 && (if forwards { began + k >= len } else { k > began })),
            first_hit(v, nb, utf8, began as int, forwards, 1) == first_hit(v, nb, utf8, began as int, forwards, k + 1),
        decreases len - k,
    {
        proof {
            lemma_step(began as int, k as int, len as int, forwards);
        }
        k = k + 1;
        let (nsel, w) = next_pos(sel, len, forwards);
        sel = nsel;
        if w {
            wrapped = true;
        }
        let name = tail(b.filelist[sel].as_str());
        assert(name.spec_bytes() == encode_utf8(tail_of(v[sel as int]@)));
        if name_has(name, needle, utf8) {
            let out = if sel == began {
                SearchOutcome::OnlyOccurrence
            } else if wrapped {
                SearchOutcome::Wrapped
            } else {
                SearchOutcome::Found
            };
            b.selected = sel;
            return out;
        }
        if sel == began {
            return SearchOutcome::NotFound;
        }
    }
    SearchOutcome::NotFound
}

/// The text to search for again: the last one searched for, or where there
/// is none, the newest entry of the search history.
pub open spec fn pattern_for_research(last: Seq<char>, hist: Histories) -> Seq<char> {
    let items = entries(history_of(hist, HistoryKind::Search));
    if last.len() == 0 && items.len() > 0 {
        items.last()
    } else {
        last
    }
}

/// Search the list again for the text searched for last (see
/// `pattern_for_research`); without any such text, say so.
pub fn research_filename(b: &mut Browser, last_search: &mut String, hist: &Histories, forwards: bool, utf8: bool) -> (r: SearchOutcome)
    requires
        old(b).wf(),
    ensures
        final(last_search)@ == pattern_for_research(old(last_search)@, *hist),
        final(last_search)@.len() == 0 ==> r == SearchOutcome::NoPattern && *final(b) == *old(b),
        final(last_search)@.len() > 0 ==> (final(b).selected as int, r) == find_result(
            old(b).filelist@,
            encode_utf8(final(last_search)@),
            utf8,
            old(b).selected as int,
            forwards,
        ),
        final(b).filelist == old(b).filelist,
        final(b).wf(),
{
    let items = &hist.search.items;
    let n = items.len();
    if last_search.as_str().is_empty() && n > 0 {
        *last_search = items[n - 1].clone();
        assert(entries(history_of(*hist, HistoryKind::Search)).last() == items@[n - 1]@);
    }
    if last_search.as_str().is_empty() {
        return SearchOutcome::NoPattern;
    }
    findfile(b, last_search.as_str(), forwards, utf8)
}

/// What follows the prompt for a search in the list, given the prompt's
/// answer: cancel (-1, or -2 with nothing searched for before); remember a
/// typed text (also in the search history); and search (for 0, and for -2,
/// which repeats the last search).
pub fn search_filename(
    b: &mut Browser,
    last_search: &mut String,
    hist: &mut Histories,
    response: i32,
    answer: &str,
    forwards: bool,
    utf8: bool,
) -> (r: SearchOutcome)
    requires
        old(b).wf(),
    ensures
        (response == -1 || (response == -2 && old(last_search)@.len() == 0)) ==> r
            == SearchOutcome::Cancelled && *final(b) == *old(b) && final(last_search)@ == old(last_search)@,
        !(response == -1 || (response == -2 && old(last_search)@.len() == 0)) ==> {
            &&& final(last_search)@ == if answer@.len() > 0 { answer@ } else { old(last_search)@ }
            &&& (response == 0 || response == -2) ==> (final(b).selected as int, r) == find_result(
                old(b).filelist@,
                encode_utf8(final(last_search)@),
                utf8,
                old(b).selected as int,
                forwards,
            )
            &&& !(response == 0 || response == -2) ==> r == SearchOutcome::Nothing && *final(b) == *old(b)
        },
        answer@.len() > 0 && !(response == -1 || (response == -2 && old(last_search)@.len() == 0))
            ==> entries(history_of(*final(hist), HistoryKind::Search)) == crate::history::entries_after_update(
            entries(history_of(*old(hist), HistoryKind::Search)),
            answer@,
            PRUNE_DUPLICATE,
        ),
        final(b).filelist == old(b).filelist,
        final(b).wf(),
{
    if response == -1 || (response == -2 && last_search.as_str().is_empty()) {
        return SearchOutcome::Cancelled;
    }
    if !answer.is_empty() {
        *last_search = String::from_str(answer);
        update_history(hist, HistoryKind::Search, answer, PRUNE_DUPLICATE);
    }
    if response == 0 || response == -2 {
        return findfile(b, last_search.as_str(), forwards, utf8);
    }
    SearchOutcome::Nothing
}


/// Where the selection goes in a list of `len` names laid out `piles` to a
/// row with `rows` rows on a screen, when the command `f` is given in the
/// browser: one name left or right, to the start or the end of the row, a
/// row up or down, to the top or the bottom of the column on this screen, a
/// screen up or down, or to the first or the last name.  `None` for a
/// command that does not move the selection.
pub open spec fn navigated(sel: int, len: int, piles: int, rows: int, f: Func) -> Option<int> {
    let screen = rows * piles;
    match f {
        Func::DoLeft => Some(if sel > 0 { sel - 1 } else { sel }),
        Func::DoRight => Some(if sel < len - 1 { sel + 1 } else { sel }),
        Func::ToPrevWord => Some(sel - sel % piles),
        Func::ToNextWord => Some({
            let n = sel + piles - 1 - sel % piles;
            if n >= len { len - 1 } else { n }
        }),
        Func::DoUp => Some(if sel >= piles { sel - piles } else { sel }),
        Func::DoDown => Some(if sel + piles <= len - 1 { sel + piles } else { sel }),
        Func::ToPrevBlock => Some((sel / screen) * screen + sel % piles),
        Func::ToNextBlock => Some({
            let n = (sel / screen) * screen + sel % piles + screen - piles;
            let n = if n >= len { (len / piles) * piles + sel % piles } else { n };
            if n >= len { n - piles } else { n }
        }),
        Func::DoPageUp => Some(if sel < piles {
            0
        } else if sel < screen {
            sel % piles
        } else {
            sel - screen
        }),
        Func::DoPageDown => Some(if sel + piles >= len - 1 {
            len - 1
        } else if sel + screen >= len {
            (sel + screen - len) % piles + len - piles
        } else {
            sel + screen
        }),
        Func::ToFirstFile => Some(0),
        Func::ToLastFile => Some(len - 1),
        _ => None,
    }
}

/// Move the selection for the command `function` (see `navigated`); return
/// whether it was a command that moves the selection.
pub fn browser_navigate(b: &mut Browser, function: Func) -> (r: bool)
    requires
        old(b).filelist@.len() > 0,
        old(b).selected < old(b).filelist@.len(),
        old(b).piles >= 1,
        old(b).usable_rows >= 1,
        old(b).usable_rows * old(b).piles + old(b).filelist@.len() <= usize::MAX,
    ensures
        r == navigated(
            old(b).selected as int,
            old(b).filelist@.len() as int,
            old(b).piles as int,
            old(b).usable_rows as int,
            function,
        ) is Some,
        r ==> final(b).selected == navigated(
            old(b).selected as int,
            old(b).filelist@.len() as int,
            old(b).piles as int,
            old(b).usable_rows as int,
            function,
        )->0,
        !r ==> final(b).selected == old(b).selected,
        final(b).filelist == old(b).filelist,
        final(b).piles == old(b).piles,
        final(b).usable_rows == old(b).usable_rows,
        final(b).gauge == old(b).gauge,
{
    let len = b.filelist.len();
    let sel = b.selected;
    let piles = b.piles as usize;
    let rows = b.usable_rows;
    proof {
        assert(rows * piles >= piles) by (nonlinear_arith)
            requires
                rows >= 1,
                piles >= 1,
        ;
    }
    let screen = rows * piles;
    let new_sel: usize = match function {
        Func::DoLeft => if sel > 0 { sel - 1 } else { sel },
        Func::DoRight => if sel < len - 1 { sel + 1 } else { sel },
        Func::ToPrevWord => {
            proof {
                lemma_mod_at_most(sel as int, piles as int);
            }
            sel - sel % piles
        },
        Func::ToNextWord => {
            let n = sel + piles - 1 - sel % piles;
            if n >= len { len - 1 } else { n }
        },
        Func::DoUp => if sel >= piles { sel - piles } else { sel },
        Func::DoDown => if sel + piles <= len - 1 { sel + piles } else { sel },
        Func::ToPrevBlock => {
            proof {
                assert((sel / screen) * screen <= sel) by (nonlinear_arith)
                    requires
                        screen >= 1,
                ;
            }
            (sel / screen) * screen + sel % piles
        },
        Func::ToNextBlock => {
            proof {
                lemma_block_start(sel as int, piles as int, rows as int);
                assert((sel / screen) * screen <= sel) by (nonlinear_arith)
                    requires
                        screen >= 1,
                ;
                assert((len / piles) * piles <= len) by (nonlinear_arith)
                    requires
                        piles >= 1,
                ;
            }
            let mut n = (sel / screen) * screen + sel % piles + screen - piles;
            if n >= len {
                n = (len / piles) * piles + sel % piles;
            }
            if n >= len {
                proof {
                    lemma_last_row_start(sel as int, len as int, piles as int);
                }
                n = n - piles;
            }
            n
        },
        Func::DoPageUp => if sel < piles {
            0
        } else if sel < screen {
            sel % piles
        } else {
            sel - screen
        },
        Func::DoPageDown => if sel + piles >= len - 1 {
            len - 1
        } else if sel + screen >= len {
            (sel + screen - len) % piles + len - piles
        } else {
            sel + screen
        },
        Func::ToFirstFile => 0,
        Func::ToLastFile => len - 1,
        _ => {
            return false;
        },
    };
    b.selected = new_sel;
    true
}

/// Where the last full row of a list starts plus a column index lies beyond
/// the list only when there is a full row before it.
proof fn lemma_last_row_start(sel: int, len: int, piles: int)
    requires
        0 <= sel < len,
        piles >= 1,
        (len / piles) * piles + sel % piles >= len,
    ensures
        (len / piles) * piles + sel % piles >= piles,
{
    if len / piles == 0 {
        assert(len < piles) by (nonlinear_arith)
            requires
                len / piles == 0,
                piles >= 1,
                len >= 0,
        ;
        assert(sel % piles == sel) by (nonlinear_arith)
            requires
                0 <= sel < piles,
        ;
    } else {
        assert((len / piles) * piles >= piles) by (nonlinear_arith)
            requires
                len / piles >= 1,
                piles >= 1,
        ;
    }
}


/// A remainder is at most the number divided.
proof fn lemma_mod_at_most(x: int, d: int)
    requires
        x >= 0,
        d >= 1,
    ensures
        x % d <= x,
        0 <= x % d < d,
{
    assert(x % d <= x && 0 <= x % d < d) by (nonlinear_arith)
        requires
            x >= 0,
            d >= 1,
    ;
}

/// The start of the screen that holds name `sel`, plus the column of
/// `sel`, is at most `sel`.
proof fn lemma_block_start(sel: int, piles: int, rows: int)
    requires
        sel >= 0,
        piles >= 1,
        rows >= 1,
    ensures
        (sel / (rows * piles)) * (rows * piles) + sel % piles <= sel,
{
    let screen = rows * piles;
    assert(screen >= 1) by (nonlinear_arith)
        requires
            screen == rows * piles,
            piles >= 1,
            rows >= 1,
    ;
    vstd::arithmetic::div_mod::lemma_fundamental_div_mod(sel, screen);
    vstd::arithmetic::div_mod::lemma_mod_mod(sel, piles, rows);
    assert(piles * rows == screen) by (nonlinear_arith)
        requires
            screen == rows * piles,
    ;
    lemma_mod_at_most(sel % screen, piles);
    lemma_mod_at_most(sel, screen);
    assert((sel / screen) * screen == screen * (sel / screen)) by (nonlinear_arith);
}


/// `p` without the slashes at its end, but keeping a lone first character.
pub open spec fn without_trailing_slashes(p: Seq<char>) -> Seq<char>
    decreases p.len(),
{
    if p.len() > 1 && p.last() == '/' {
        without_trailing_slashes(p.drop_last())
    } else {
        p
    }
}

/// The directory that the answer `answer` at the Go To Directory prompt
/// names: the answer with a leading tilde expanded (`expanded`) where that
/// is an absolute path, else the answer after the present path; without
/// slashes at its end.
pub open spec fn directory_for(expanded: Seq<char>, answer: Seq<char>, present: Seq<char>) -> Seq<char> {
    without_trailing_slashes(
        if expanded.len() > 0 && expanded[0] == '/' {
            expanded
        } else {
            present + answer
        },
    )
}

/// The directory to go to for the answer at the Go To Directory prompt
/// (see `directory_for`).
pub fn directory_to_go_to(expanded: &str, answer: &str, present_path: &str) -> (r: String)
    ensures
        r@ == directory_for(expanded@, answer@, present_path@),
{
    let mut p: String = if expanded.unicode_len() > 0 && expanded.get_char(0) == '/' {
        String::from_str(expanded)
    } else {
        let mut joined = String::from_str(present_path);
        joined.append(answer);
        joined
    };
    let n = p.as_str().unicode_len();
    let mut k: usize = n;
    proof {
        assert(p@.subrange(0, n as int) =~= p@);
    }
    while k > 1 && p.as_str().get_char(k - 1) == '/'
        invariant
            k <= n,
            n == p@.len(),
            without_trailing_slashes(p@) == without_trailing_slashes(p@.subrange(0, k as int)),
        decreases k,
    {
        proof {
            assert(p@.subrange(0, k as int).drop_last() =~= p@.subrange(0, k - 1));
        }
        k = k - 1;
    }
    proof {
        assert(p@.subrange(0, n as int) =~= p@);
    }
    String::from_str(p.as_str().substring_char(0, k))
}

/// What choosing the selected name in the browser does: nothing above the
/// root ("/.."), nothing outside the operating directory, nothing for a
/// name that cannot be examined, the name itself for a file, and for a
/// directory a move into it (remembering, when it goes up, the directory it
/// came from, so that it can be selected again).
pub enum EnterOutcome {
    CannotMoveUp,
    OutsideConfinement,
    Unreadable,
    Chosen(String),
    Enter { path: String, present_name: Option<String> },
}

/// What choosing `selected_file` does (see `EnterOutcome`), where `outside`
/// says whether it lies outside the operating directory and `is_dir`
/// whether it is a directory (`None` where it could not be examined).
pub fn browser_enter(selected_file: &str, outside: bool, is_dir: Option<bool>) -> (r: EnterOutcome)
    ensures
        selected_file@ == "/.."@ ==> r is CannotMoveUp,
        selected_file@ != "/.."@ && outside ==> r is OutsideConfinement,
        selected_file@ != "/.."@ && !outside ==> match is_dir {
            None => r is Unreadable,
            Some(false) => r matches EnterOutcome::Chosen(name) && name@ == selected_file@,
            Some(true) => r matches EnterOutcome::Enter { path, present_name } && path@ == selected_file@
                && (match present_name {
                Some(p) => tail_of(selected_file@) == ".."@ && p@ == stripped_path(selected_file@),
                None => tail_of(selected_file@) != ".."@,
            }),
        },
{
    if string_eq(selected_file, "/..") {
        return EnterOutcome::CannotMoveUp;
    }
    if outside {
        return EnterOutcome::OutsideConfinement;
    }
    match is_dir {
        None => EnterOutcome::Unreadable,
        Some(false) => EnterOutcome::Chosen(String::from_str(selected_file)),
        Some(true) => {
            let present_name = if string_eq(tail(selected_file), "..") {
                Some(strip_last_component(selected_file))
            } else {
                None
            };
            EnterOutcome::Enter { path: String::from_str(selected_file), present_name }
        },
    }
}

/// The name that a click at `row` (counted from the top of the list's
/// window) and column `x` selects: the name under it on the page of the
/// selection, the one before it for a click beyond the end of a row, and at
/// most the last name.
pub open spec fn clicked(sel: int, len: int, piles: int, rows: int, gauge: int, row: int, x: int) -> int {
    let base = sel - sel % (rows * piles);
    let s = base + row * piles + x / (gauge + 2);
    let s = if x > piles * (gauge + 2) {
        if s > 0 {
            s - 1
        } else {
            0
        }
    } else {
        s
    };
    if s >= len {
        len - 1
    } else {
        s
    }
}

/// Select the name that a click at `row` and column `x` points at (see
/// `clicked`); return whether it was selected already, which makes the
/// click a double click that chooses it.
pub fn browser_click(b: &mut Browser, row: usize, x: usize) -> (r: bool)
    requires
        old(b).filelist@.len() > 0,
        old(b).selected < old(b).filelist@.len(),
        old(b).piles >= 1,
        old(b).gauge >= 0,
        old(b).usable_rows >= 1,
        old(b).usable_rows * old(b).piles + old(b).filelist@.len() <= usize::MAX,
        row * old(b).piles + x + old(b).filelist@.len() <= usize::MAX,
    ensures
        final(b).selected == clicked(
            old(b).selected as int,
            old(b).filelist@.len() as int,
            old(b).piles as int,
            old(b).usable_rows as int,
            old(b).gauge as int,
            row as int,
            x as int,
        ),
        r == (final(b).selected == old(b).selected),
        final(b).filelist == old(b).filelist,
        final(b).piles == old(b).piles,
        final(b).usable_rows == old(b).usable_rows,
        final(b).gauge == old(b).gauge,
{
    let len = b.filelist.len();
    let sel = b.selected;
    let piles = b.piles as usize;
    let gauge = b.gauge as usize;
    let rows = b.usable_rows;
    proof {
        assert(rows * piles >= 1) by (nonlinear_arith)
            requires
                rows >= 1,
                piles >= 1,
        ;
        assert(row * piles <= usize::MAX);
    }
    let screen = rows * piles;
    proof {
        assert(sel % screen <= sel) by (nonlinear_arith)
            requires
                screen >= 1,
        ;
        assert((piles as u64) * (gauge as u64 + 2) <= 0x7fff_ffffu64 * 0x8000_0001u64) by (nonlinear_arith)
            requires
                piles <= 0x7fff_ffff,
                gauge <= 0x7fff_ffff,
        ;
    }
    let base = sel - sel % screen;
    let mut s = base + row * piles + x / (gauge + 2);
    let wide: u64 = (piles as u64) * (gauge as u64 + 2);
    if (x as u64) > wide {
        if s > 0 {
            s = s - 1;
        }
    }
    if s >= len {
        s = len - 1;
    }
    let same = s == sel;
    b.selected = s;
    same
}

/// The digit `d` (below ten) as an ASCII byte.
pub open spec fn digit_byte(d: int) -> u8 {
    (0x30 + d) as u8
}

/// `n` (below ten thousand) right-aligned in four columns: its decimal
/// digits, with blanks in place of leading zeros.
pub open spec fn pad4(n: int) -> Seq<u8> {
    seq![
        if n >= 1000 { digit_byte((n / 1000) % 10) } else { 0x20u8 },
        if n >= 100 { digit_byte((n / 100) % 10) } else { 0x20u8 },
        if n >= 10 { digit_byte((n / 10) % 10) } else { 0x20u8 },
        digit_byte(n % 10),
    ]
}

/// What the browser shows after a name: "--" for a link or a name that
/// cannot be examined (unless it leads to a directory: "(dir)"); "(parent
/// dir)" for "..", "(dir)" for another directory; for a file its size in
/// bytes, kilobytes, megabytes or gigabytes (right-aligned in four
/// columns), or "(huge)" from a terabyte on.
pub open spec fn file_info_text(link_or_missing: bool, is_dir: bool, is_parent: bool, size: u64) -> Seq<u8> {
    if link_or_missing {
        if is_dir {
            "(dir)"@.map_values(|c: char| c as u8)
        } else {
            seq![0x2Du8, 0x2Du8]
        }
    } else if is_dir {
        if is_parent {
            "(parent dir)"@.map_values(|c: char| c as u8)
        } else {
            "(dir)"@.map_values(|c: char| c as u8)
        }
    } else if size < 0x400 {
        pad4(size as int) + seq![0x20u8, 0x20u8, 0x42u8]
    } else if size < 0x10_0000 {
        pad4((size / 0x400) as int) + seq![0x20u8, 0x4Bu8, 0x42u8]
    } else if size < 0x4000_0000 {
        pad4((size / 0x10_0000) as int) + seq![0x20u8, 0x4Du8, 0x42u8]
    } else if size / 0x4000_0000 < 0x400 {
        pad4((size / 0x4000_0000) as int) + seq![0x20u8, 0x47u8, 0x42u8]
    } else {
        "(huge)"@.map_values(|c: char| c as u8)
    }
}

/// Append `n` (below ten thousand) right-aligned in four columns.
fn push_pad4(v: &mut Vec<u8>, n: u64)
    requires
        n < 10000,
    ensures
        final(v)@ == old(v)@ + pad4(n as int),
{
    v.push(if n >= 1000 { (0x30 + (n / 1000) % 10) as u8 } else { 0x20 });
    v.push(if n >= 100 { (0x30 + (n / 100) % 10) as u8 } else { 0x20 });
    v.push(if n >= 10 { (0x30 + (n / 10) % 10) as u8 } else { 0x20 });
    v.push((0x30 + n % 10) as u8);
    assert(v@ =~= old(v)@ + pad4(n as int));
}

/// Append the bytes of the ASCII text `t`.
fn push_ascii(v: &mut Vec<u8>, t: &str)
    requires
        t.is_ascii(),
    ensures
        final(v)@ == old(v)@ + t@.map_values(|c: char| c as u8),
{
    let b = t.as_bytes();
    proof {
        vstd::utf8::is_ascii_chars_encode_utf8(t@);
        assert(b@ =~= t@.map_values(|c: char| c as u8));
    }
    crate::bytes::append_bytes(v, b);
}

/// What the browser shows after a name (see `file_info_text`), as text.
pub fn file_info(link_or_missing: bool, is_dir: bool, is_parent: bool, size: u64) -> (r: String)
    ensures
        r@ == file_info_text(link_or_missing, is_dir, is_parent, size).map_values(|b: u8| b as char),
{
    let mut v: Vec<u8> = Vec::new();
    if link_or_missing {
        if is_dir {
            proof { reveal_strlit("(dir)"); }
            push_ascii(&mut v, "(dir)");
        } else {
            v.push(0x2D);
            v.push(0x2D);
        }
    } else if is_dir {
        if is_parent {
            proof { reveal_strlit("(parent dir)"); }
            push_ascii(&mut v, "(parent dir)");
        } else {
            proof { reveal_strlit("(dir)"); }
            push_ascii(&mut v, "(dir)");
        }
    } else if size < 0x400 {
        push_pad4(&mut v, size);
        v.push(0x20);
        v.push(0x20);
        v.push(0x42);
    } else if size < 0x10_0000 {
        push_pad4(&mut v, size / 0x400);
        v.push(0x20);
        v.push(0x4B);
        v.push(0x42);
    } else if size < 0x4000_0000 {
        push_pad4(&mut v, size / 0x10_0000);
        v.push(0x20);
        v.push(0x4D);
        v.push(0x42);
    } else if size / 0x4000_0000 < 0x400 {
        push_pad4(&mut v, size / 0x4000_0000);
        v.push(0x20);
        v.push(0x47);
        v.push(0x42);
    } else {
        proof { reveal_strlit("(huge)"); }
        push_ascii(&mut v, "(huge)");
    }
    assert(v@ =~= file_info_text(link_or_missing, is_dir, is_parent, size));
    proof {
        assert forall|k: int| 0 <= k < v@.len() implies #[trigger] v@[k] < 0x80 by {
            let b = v@[k];
            reveal_strlit("(dir)");
            reveal_strlit("(parent dir)");
            reveal_strlit("(huge)");
        }
        crate::bytes::lemma_ascii_utf8(v@);
    }
    crate::bytes::bytes_to_string(v.as_slice())
}

/// What a key does in the file browser: show the help, read the directory
/// anew (keeping the selection), show or hide the help lines, search for a
/// name (forwards or backwards), search again, move the selection (see
/// `browser_navigate`), ask for a directory to go to, choose the selected
/// name, leave, type the string bound to the key (the entry of the key list
/// that holds it), or report the key as unbound.
#[derive(Clone, Copy, Debug, PartialEq, Eq, Structural)]
pub enum BrowserAction {
    Help,
    Reload,
    ToggleHelpLines,
    Search(bool),
    Research(bool),
    Navigate(Func),
    GotoDir,
    Enter,
    Exit,
    Implant(usize),
    Unbound,
}

/// Whether `f` moves the selection in the browser.
pub open spec fn is_navigation(f: Func) -> bool {
    f == Func::DoLeft || f == Func::DoRight || f == Func::ToPrevWord || f == Func::ToNextWord || f
        == Func::DoUp || f == Func::DoDown || f == Func::ToPrevBlock || f == Func::ToNextBlock || f
        == Func::DoPageUp || f == Func::DoPageDown || f == Func::ToFirstFile || f == Func::ToLastFile
}

/// What a key calling `func` (if anything) does in the browser, where
/// `toggle` is the option that the key toggles (see `BrowserAction`).
pub open spec fn browser_action(v: Seq<KeyStruct>, func: Option<Func>, toggle: i32) -> BrowserAction {
    match func {
        Some(f) => if f == Func::DoHelp {
            BrowserAction::Help
        } else if f == Func::FullRefresh {
            BrowserAction::Reload
        } else if f == Func::DoToggle && toggle == NO_HELP as i32 {
            BrowserAction::ToggleHelpLines
        } else if f == Func::DoSearchBackward || f == Func::DoSearchForward {
            BrowserAction::Search(f == Func::DoSearchForward)
        } else if f == Func::DoFindprevious || f == Func::DoFindnext {
            BrowserAction::Research(f == Func::DoFindnext)
        } else if is_navigation(f) {
            BrowserAction::Navigate(f)
        } else if f == Func::GotoDir {
            BrowserAction::GotoDir
        } else if f == Func::DoEnter {
            BrowserAction::Enter
        } else if f == Func::DoExit {
            BrowserAction::Exit
        } else {
            match implant_index(v, MBROWSER, f, 0) {
                Some(i) => BrowserAction::Implant(i as usize),
                None => BrowserAction::Unbound,
            }
        },
        None => BrowserAction::Unbound,
    }
}

/// What the key `keycode`, calling `func` (if anything), does in the
/// browser (see `browser_action`).
pub fn browser_key(sc: &Shortcuts, keycode: i32, func: Option<Func>) -> (r: BrowserAction)
    ensures
        r == browser_action(
            sc.sclist@,
            func,
            match first_key_index(sc.sclist@, sc.currmenu, keycode, 0) {
                Some(i) => sc.sclist@[i].toggle,
                None => 0,
            },
        ),
{
    let toggle = shortcut_toggle_for(sc, keycode);
    match func {
        Some(f) => {
            if f == Func::DoHelp {
                BrowserAction::Help
            } else if f == Func::FullRefresh {
                BrowserAction::Reload
            } else if f == Func::DoToggle && toggle == NO_HELP as i32 {
                BrowserAction::ToggleHelpLines
            } else if f == Func::DoSearchBackward || f == Func::DoSearchForward {
                BrowserAction::Search(f == Func::DoSearchForward)
            } else if f == Func::DoFindprevious || f == Func::DoFindnext {
                BrowserAction::Research(f == Func::DoFindnext)
            } else if f == Func::DoLeft || f == Func::DoRight || f == Func::ToPrevWord || f
                == Func::ToNextWord || f == Func::DoUp || f == Func::DoDown || f == Func::ToPrevBlock
                || f == Func::ToNextBlock || f == Func::DoPageUp || f == Func::DoPageDown || f
                == Func::ToFirstFile || f == Func::ToLastFile {
                BrowserAction::Navigate(f)
            } else if f == Func::GotoDir {
                BrowserAction::GotoDir
            } else if f == Func::DoEnter {
                BrowserAction::Enter
            } else if f == Func::DoExit {
                BrowserAction::Exit
            } else {
                match find_implant(sc, MBROWSER, f) {
                    Some(i) => BrowserAction::Implant(i),
                    None => BrowserAction::Unbound,
                }
            }
        },
        None => BrowserAction::Unbound,
    }
}

} // verus!
