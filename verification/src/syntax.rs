//! Syntax colouring: the regular expressions of a syntax, which syntax
//! applies to a file, the colour pairs of its rules, and the bookkeeping of
//! the rules that span several lines (which lines they start on, cover
//! wholly, or end on).
use vstd::prelude::*;
use crate::buffer::texts;
use crate::definitions::{LineNode, AugmentStruct, NUMBER_OF_ELEMENTS, NOTHING, STARTSHERE, WHOLELINE, ENDSHERE, JUSTONTHIS};
use crate::browser::string_eq;
use crate::bytes::subvec;
use crate::chars::{char_len, char_length_at, lemma_char_len_bounds};
use regex::bytes::{Regex, RegexBuilder};

verus! {

/// A compiled regular expression, as the `regex` crate holds it.
#[verifier::external_type_specification]
#[verifier::external_body]
pub struct ExRegex(Regex);

/// Whether `source` is a valid regular expression (compiled without
/// regard to case where `icase`), as the `regex` crate decides.
pub uninterp spec fn pattern_compiles(source: Seq<char>, icase: bool) -> bool;

/// Where the regular expression `source` (without regard to case where
/// `icase`) first matches in `hay` at or after index `start`: the start and
/// the end of the match, as the `regex` crate finds it; `None` without a
/// match.
pub uninterp spec fn pattern_match_at(source: Seq<char>, icase: bool, hay: Seq<u8>, start: int) -> Option<(int, int)>;

/// A regular expression with its source text and its case flag.  The
/// compiled form is made only by `compile_pattern`, from exactly that source
/// and flag; the view is the source and the flag.
pub struct CompiledPattern {
    source: String,
    icase: bool,
    re: Regex,
}

impl View for CompiledPattern {
    type V = (Seq<char>, bool);

    closed spec fn view(&self) -> (Seq<char>, bool) {
        (self.source@, self.icase)
    }
}

impl CompiledPattern {
    /// The source text of the pattern.
    pub fn source(&self) -> (r: &str)
        ensures
            r@ == self@.0,
    {
        self.source.as_str()
    }

    /// Whether the pattern disregards case.
    pub fn icase(&self) -> (r: bool)
        ensures
            r == self@.1,
    {
        self.icase
    }
}

/// Compile `source` with `regex::bytes::RegexBuilder`, without regard to
/// case where `icase`.  The build succeeds exactly for the patterns that the
/// crate accepts, which is named here.
#[verifier::external_body]
fn build_regex(source: &str, icase: bool) -> (r: Option<Regex>)
    ensures
        r is Some == pattern_compiles(source@, icase),
{
    RegexBuilder::new(source).case_insensitive(icase).build().ok()
}

/// Compile the regular expression `source` (without regard to case where
/// `icase`); `None` where it is not valid.
pub fn compile_pattern(source: &str, icase: bool) -> (r: Option<CompiledPattern>)
    ensures
        r is Some == pattern_compiles(source@, icase),
        r matches Some(p) ==> p@ == (source@, icase),
{
    match build_regex(source, icase) {
        Some(re) => Some(CompiledPattern { source: String::from_str(source), icase, re }),
        None => None,
    }
}

/// The first match of `p` in `hay` at or after `start`, with
/// `regex::bytes::Regex::find_at`.  Its result is a function of the pattern's
/// source, its case flag, the bytes and the start (named here); as the
/// crate's source shows, the search runs over the span from `start` to the
/// end, so a match lies within it.  (A pattern's compiled form always comes
/// from its source: `compile_pattern` is the only way to make one.)
#[verifier::external_body]
fn regex_find_at(p: &CompiledPattern, hay: &[u8], start: usize) -> (r: Option<(usize, usize)>)
    requires
        start <= hay@.len(),
    ensures
        r matches Some(m) ==> pattern_match_at(p@.0, p@.1, hay@, start as int) == Some(
            (m.0 as int, m.1 as int),
        ) && start <= m.0 <= m.1 <= hay@.len(),
        r is None ==> pattern_match_at(p@.0, p@.1, hay@, start as int) is None,
{
    p.re.find_at(hay, start).map(|m| (m.start(), m.end()))
}

/// Where `p` first matches in `hay` at or after `start`.
pub open spec fn match_of(p: CompiledPattern, hay: Seq<u8>, start: int) -> Option<(int, int)> {
    pattern_match_at(p@.0, p@.1, hay, start)
}

/// Whether `p` matches somewhere in `hay`.
pub open spec fn matches_somewhere(p: CompiledPattern, hay: Seq<u8>) -> bool {
    match_of(p, hay, 0) is Some
}

/// Whether one of the regular expressions of `list` matches somewhere in
/// `hay`.
pub open spec fn list_matches(list: Seq<RegexListType>, hay: Seq<u8>) -> bool {
    exists|i: int| 0 <= i < list.len() && item_matches(#[trigger] list[i], hay)
}

/// Whether the regular expression of `item`, where it has one, matches
/// somewhere in `hay`.
pub open spec fn item_matches(item: RegexListType, hay: Seq<u8>) -> bool {
    match item.one_rgx {
        Some(p) => matches_somewhere(p, hay),
        None => false,
    }
}

/// Whether one of the regular expressions of `list` matches in
/// `shibboleth`.
pub fn found_in_list(list: &Vec<RegexListType>, shibboleth: &[u8]) -> (r: bool)
    ensures
        r == list_matches(list@, shibboleth@),
{
    let n = list.len();
    let mut i: usize = 0;
    while i < n
        invariant
            n == list@.len(),
            i <= n,
            forall|j: int| 0 <= j < i ==> !item_matches(#[trigger] list@[j], shibboleth@),
        decreases n - i,
    {
        match &list[i].one_rgx {
            Some(p) => {
                if regex_find_at(p, shibboleth, 0).is_some() {
                    assert(item_matches(list@[i as int], shibboleth@));
                    return true;
                }
            },
            None => {},
        }
        i = i + 1;
    }
    false
}

/// One regular expression of a list that tells which files a syntax applies
/// to (by name, by first line, or by file type).
pub struct RegexListType {
    pub one_rgx: Option<CompiledPattern>,
}

/// One colouring rule of a syntax: its number among the rules that span
/// lines, its colours, its colour pair and attributes, and its start
/// expression (the only one for a rule that stays within a line) and end
/// expression.
pub struct ColorType {
    pub id: i16,
    pub fg: i16,
    pub bg: i16,
    pub pairnum: i16,
    pub attributes: i32,
    pub start: Option<CompiledPattern>,
    pub end: Option<CompiledPattern>,
}

/// A syntax: its name, the file its rules are still to be read from (empty
/// once read), where it was defined, its deferred extensions, the lists that
/// select it, its linter, formatter, tab and comment strings, its colouring
/// rules, and how many of those span lines.
pub struct SyntaxType {
    pub name: String,
    pub filename: String,
    pub lineno: usize,
    pub augmentations: Vec<AugmentStruct>,
    pub extensions: Vec<RegexListType>,
    pub headers: Vec<RegexListType>,
    pub magics: Vec<RegexListType>,
    pub linter: Option<String>,
    pub formatter: Option<String>,
    pub tabstring: Option<String>,
    pub comment: Option<String>,
    pub color: Vec<ColorType>,
    pub multiscore: i16,
}

/// The foreground and background colours of each rule.
pub open spec fn color_pairs(rules: Seq<ColorType>) -> Seq<(i16, i16)> {
    rules.map_values(|r: ColorType| (r.fg, r.bg))
}

/// The distinct elements of `s`, in the order of their first occurrence.
pub open spec fn distinct_in_order(s: Seq<(i16, i16)>) -> Seq<(i16, i16)>
    decreases s.len(),
{
    if s.len() == 0 {
        s
    } else {
        let d = distinct_in_order(s.drop_last());
        if d.contains(s.last()) {
            d
        } else {
            d.push(s.last())
        }
    }
}

/// The pair number that the combination `c` gets among the combinations
/// `pairs`: the numbers after those of the interface elements, in the order
/// in which the combinations first occur.
pub open spec fn pair_number(pairs: Seq<(i16, i16)>, c: (i16, i16)) -> int {
    NUMBER_OF_ELEMENTS + 1 + distinct_in_order(pairs).index_of(c)
}

/// Whether `new` is the rule `old` with its pair number `num` filled in and
/// the number added into its attributes.
pub open spec fn rule_numbered(old: ColorType, new: ColorType, num: int) -> bool {
    &&& new.pairnum == num
    &&& new.attributes == old.attributes | ((num as i32) & 0xFF)
    &&& new.id == old.id
    &&& new.fg == old.fg
    &&& new.bg == old.bg
    &&& new.start == old.start
    &&& new.end == old.end
}

/// Whether `new` is the syntax `old` with the pair numbers of its rules
/// assigned: every rule gets the pair number of its colours, and nothing
/// else changes.
pub open spec fn pairs_assigned(old: SyntaxType, new: SyntaxType) -> bool {
    &&& new.color@.len() == old.color@.len()
    &&& forall|i: int| 0 <= i < old.color@.len() ==> rule_numbered(
        #[trigger] old.color@[i],
        new.color@[i],
        pair_number(color_pairs(old.color@), (old.color@[i].fg, old.color@[i].bg)),
    )
    &&& new.name == old.name
    &&& new.filename == old.filename
    &&& new.lineno == old.lineno
    &&& new.augmentations == old.augmentations
    &&& new.extensions == old.extensions
    &&& new.headers == old.headers
    &&& new.magics == old.magics
    &&& new.linter == old.linter
    &&& new.formatter == old.formatter
    &&& new.tabstring == old.tabstring
    &&& new.comment == old.comment
    &&& new.multiscore == old.multiscore
}

/// The distinct combinations of a sequence have no duplicates, hold each of
/// its elements, and those of a prefix come first.
proof fn lemma_distinct(s: Seq<(i16, i16)>, k: int)
    requires
        0 <= k <= s.len(),
    ensures
        distinct_in_order(s).no_duplicates(),
        forall|i: int| 0 <= i < s.len() ==> distinct_in_order(s).contains(#[trigger] s[i]),
        forall|x: (i16, i16)| distinct_in_order(s).contains(x) ==> s.contains(x),
        distinct_in_order(s.subrange(0, k)).len() <= distinct_in_order(s).len(),
        distinct_in_order(s.subrange(0, k)) =~= distinct_in_order(s).subrange(0, distinct_in_order(s.subrange(0, k)).len() as int),
        distinct_in_order(s).len() <= s.len(),
    decreases s.len(),
{
    if s.len() == 0 {
        assert(s.subrange(0, k) =~= s);
    } else {
        let t = s.drop_last();
        if k == s.len() {
            assert(s.subrange(0, k) =~= s);
            lemma_distinct(t, 0);
        } else {
            lemma_distinct(t, k);
            assert(t.subrange(0, k) =~= s.subrange(0, k));
        }
        let d = distinct_in_order(t);
        assert forall|i: int| 0 <= i < s.len() implies distinct_in_order(s).contains(#[trigger] s[i]) by {
            if i < s.len() - 1 {
                assert(t[i] == s[i]);
                assert(d.contains(t[i]));
                if !d.contains(s.last()) {
                    let j = choose|j: int| 0 <= j < d.len() && d[j] == t[i];
                    assert(d.push(s.last())[j] == s[i]);
                }
            } else {
                if !d.contains(s.last()) {
                    assert(d.push(s.last())[d.len() as int] == s[i]);
                }
            }
        }
        assert forall|x: (i16, i16)| distinct_in_order(s).contains(x) implies s.contains(x) by {
            if d.contains(x) {
                assert(t.contains(x));
                let j = choose|j: int| 0 <= j < t.len() && t[j] == x;
                assert(s[j] == x);
            } else {
                assert(s[s.len() - 1] == x);
            }
        }
    }
}

/// Identical colour combinations get the same pair number and different
/// ones different numbers, all above those of the interface elements.
pub proof fn lemma_pair_numbers_tell_combinations_apart(pairs: Seq<(i16, i16)>, i: int, j: int)
    requires
        0 <= i < pairs.len(),
        0 <= j < pairs.len(),
    ensures
        (pair_number(pairs, pairs[i]) == pair_number(pairs, pairs[j])) <==> (pairs[i] == pairs[j]),
        NUMBER_OF_ELEMENTS < pair_number(pairs, pairs[i]) <= NUMBER_OF_ELEMENTS + distinct_in_order(pairs).len(),
{
    lemma_distinct(pairs, 0);
    let d = distinct_in_order(pairs);
    assert(d.contains(pairs[i]));
    assert(d.contains(pairs[j]));
    let a = d.index_of(pairs[i]);
    let b = d.index_of(pairs[j]);
    assert(0 <= a < d.len() && d[a] == pairs[i]);
    assert(0 <= b < d.len() && d[b] == pairs[j]);
}

/// Give each colour combination of the syntax's rules a pair number, the
/// same number to identical combinations, and add the number into the
/// rule's attributes.
pub fn set_syntax_colorpairs(sntx: &mut SyntaxType)
    requires
        distinct_in_order(color_pairs(old(sntx).color@)).len() + NUMBER_OF_ELEMENTS <= i16::MAX,
    ensures
        pairs_assigned(*old(sntx), *final(sntx)),
        forall|i: int, j: int|
            0 <= i < final(sntx).color@.len() && 0 <= j < final(sntx).color@.len() ==> ((
            #[trigger] final(sntx).color@[i].pairnum == #[trigger] final(sntx).color@[j].pairnum) <==> (
            final(sntx).color@[i].fg == final(sntx).color@[j].fg && final(sntx).color@[i].bg
                == final(sntx).color@[j].bg)),
        forall|i: int|
            0 <= i < final(sntx).color@.len() ==> #[trigger] final(sntx).color@[i].pairnum
                > NUMBER_OF_ELEMENTS,
{
    let ghost pairs = color_pairs(sntx.color@);
    let ghost orig = sntx.color@;
    let n = sntx.color.len();
    let mut seen: Vec<(i16, i16)> = Vec::new();
    let mut i: usize = 0;
    proof {
        lemma_distinct(pairs, 0);
        assert(pairs.subrange(0, 0) =~= Seq::<(i16, i16)>::empty());
    }
    while i < n
        invariant
            n == orig.len(),
            pairs == color_pairs(orig),
            i <= n,
            sntx.color@.len() == n,
            seen@ == distinct_in_order(pairs.subrange(0, i as int)),
            distinct_in_order(pairs).len() + NUMBER_OF_ELEMENTS <= i16::MAX,
            forall|j: int| i <= j < n ==> #[trigger] sntx.color@[j] == orig[j],
            forall|j: int| 0 <= j < i ==> rule_numbered(
                #[trigger] orig[j],
                sntx.color@[j],
                pair_number(pairs, pairs[j]),
            ),
            sntx.name == old(sntx).name,
            sntx.filename == old(sntx).filename,
            sntx.lineno == old(sntx).lineno,
            sntx.augmentations == old(sntx).augmentations,
            sntx.extensions == old(sntx).extensions,
            sntx.headers == old(sntx).headers,
            sntx.magics == old(sntx).magics,
            sntx.linter == old(sntx).linter,
            sntx.formatter == old(sntx).formatter,
            sntx.tabstring == old(sntx).tabstring,
            sntx.comment == old(sntx).comment,
            sntx.multiscore == old(sntx).multiscore,
            orig == old(sntx).color@,
        decreases n - i,
    {
        let fg = sntx.color[i].fg;
        let bg = sntx.color[i].bg;
        proof {
            lemma_distinct(pairs, i as int);
            lemma_distinct(pairs, i + 1);
            lemma_distinct(pairs.subrange(0, i + 1), i as int);
            assert(pairs.subrange(0, i + 1).subrange(0, i as int) =~= pairs.subrange(0, i as int));
            assert(pairs.subrange(0, i + 1).drop_last() =~= pairs.subrange(0, i as int));
            assert(pairs[i as int] == (fg, bg));
        }
        let mut k: usize = 0;
        let mut found = false;
        while !found && k < seen.len()
            invariant
                k <= seen@.len(),
                found ==> k < seen@.len() && seen@[k as int] == (fg, bg),
                !found ==> forall|m: int| 0 <= m < k ==> seen@[m] != (fg, bg),
            decreases seen@.len() - k, (if found { 0int } else { 1int }),
        {
            let (f, b) = seen[k];
            if f == fg && b == bg {
                found = true;
            } else {
                k = k + 1;
            }
        }
        let ghost big = distinct_in_order(pairs);
        let ghost upto = distinct_in_order(pairs.subrange(0, i + 1));
        proof {
            if found {
                assert(seen@.contains((fg, bg)));
            }
        }
        if !found {
            seen.push((fg, bg));
        }
        proof {
            assert(seen@ == upto);
            assert(upto[k as int] == (fg, bg));
            assert(big.subrange(0, upto.len() as int) =~= upto);
            assert(big[k as int] == (fg, bg));
            assert(big.index_of((fg, bg)) == k) by {
                let c = big.index_of((fg, bg));
                assert(big.contains((fg, bg)));
                assert(0 <= c < big.len() && big[c] == (fg, bg));
            }
        }
        let num: i16 = (NUMBER_OF_ELEMENTS + 1 + k) as i16;
        let mut rule = ColorType {
            id: 0,
            fg: 0,
            bg: 0,
            pairnum: 0,
            attributes: 0,
            start: None,
            end: None,
        };
        sntx.color.set_and_swap(i, &mut rule);
        rule.pairnum = num;
        rule.attributes = rule.attributes | ((num as i32) & 0xFF);
        sntx.color.set_and_swap(i, &mut rule);
        i = i + 1;
    }
    proof {
        assert(pairs.subrange(0, n as int) =~= pairs);
        assert forall|a: int, b: int|
            0 <= a < n && 0 <= b < n implies ((#[trigger] sntx.color@[a].pairnum == #[trigger] sntx.color@[b].pairnum)
            <==> (sntx.color@[a].fg == sntx.color@[b].fg && sntx.color@[a].bg == sntx.color@[b].bg)) by {
            assert(rule_numbered(orig[a], sntx.color@[a], pair_number(pairs, pairs[a])));
            assert(rule_numbered(orig[b], sntx.color@[b], pair_number(pairs, pairs[b])));
            lemma_pair_numbers_tell_combinations_apart(pairs, a, b);
        }
        assert forall|a: int| 0 <= a < n implies #[trigger] sntx.color@[a].pairnum > NUMBER_OF_ELEMENTS by {
            assert(rule_numbered(orig[a], sntx.color@[a], pair_number(pairs, pairs[a])));
            lemma_pair_numbers_tell_combinations_apart(pairs, a, a);
        }
    }
}


/// The first index below `n` at which `p` holds; `None` where it holds at
/// none.
pub open spec fn first_where(n: int, p: spec_fn(int) -> bool) -> Option<int> {
    if exists|i: int| 0 <= i < n && #[trigger] p(i) {
        Some(choose|i: int| 0 <= i < n && #[trigger] p(i) && forall|j: int| 0 <= j < i ==> !#[trigger] p(j))
    } else {
        None
    }
}

proof fn lemma_first_where_is(n: int, p: spec_fn(int) -> bool, i: int)
    requires
        0 <= i < n,
        p(i),
        forall|j: int| 0 <= j < i ==> !#[trigger] p(j),
    ensures
        first_where(n, p) == Some(i),
{
    let c = choose|c: int| 0 <= c < n && #[trigger] p(c) && forall|j: int| 0 <= j < c ==> !#[trigger] p(j);
    assert(0 <= c < n && p(c) && forall|j: int| 0 <= j < c ==> !#[trigger] p(j));
    if c < i {
        assert(!p(c));
    }
    if c > i {
        assert(!p(i));
    }
}

/// The first syntax named `name`.
pub open spec fn name_index(syns: Seq<SyntaxType>, name: Seq<char>) -> Option<int> {
    first_where(syns.len() as int, |i: int| syns[i].name@ == name)
}

/// The list of a syntax that selects it by file name (`kind` 0), by first
/// line (1) or by file type (2).
pub open spec fn regex_list(s: SyntaxType, kind: int) -> Seq<RegexListType> {
    if kind == 0 {
        s.extensions@
    } else if kind == 1 {
        s.headers@
    } else {
        s.magics@
    }
}

/// The first syntax whose list of the given kind matches in `hay`.
pub open spec fn list_index(syns: Seq<SyntaxType>, kind: int, hay: Seq<u8>) -> Option<int> {
    first_where(syns.len() as int, |i: int| list_matches(regex_list(syns[i], kind), hay))
}

/// The syntax that applies to a file: the one named by the override where
/// one is given and exists; else (outside the help viewer) the first whose
/// name patterns match the file's full path, else the first whose header
/// patterns match its first line, else (where file types are consulted and
/// known) the first whose type patterns match the file's type, else the one
/// named "default".
pub open spec fn applicable_syntax(
    syns: Seq<SyntaxType>,
    syntaxstr: Option<Seq<char>>,
    inhelp: bool,
    fullname: Seq<u8>,
    first_line: Seq<u8>,
    use_magic: bool,
    magic: Option<Seq<u8>>,
) -> Option<int> {
    let by_name = match syntaxstr {
        Some(s) => name_index(syns, s),
        None => None,
    };
    if by_name is Some {
        by_name
    } else if inhelp {
        None
    } else if list_index(syns, 0, fullname) is Some {
        list_index(syns, 0, fullname)
    } else if list_index(syns, 1, first_line) is Some {
        list_index(syns, 1, first_line)
    } else if use_magic && magic is Some && list_index(syns, 2, magic->0) is Some {
        list_index(syns, 2, magic->0)
    } else {
        name_index(syns, "default"@)
    }
}

/// The first syntax named `name`.
fn find_by_name(syns: &Vec<SyntaxType>, name: &str) -> (r: Option<usize>)
    ensures
        r matches Some(i) ==> i < syns@.len() && name_index(syns@, name@) == Some(i as int),
        r is None ==> name_index(syns@, name@) is None,
{
    let n = syns.len();
    let mut i: usize = 0;
    while i < n
        invariant
            n == syns@.len(),
            i <= n,
            forall|j: int| 0 <= j < i ==> syns@[j].name@ != name@,
        decreases n - i,
    {
        if string_eq(syns[i].name.as_str(), name) {
            proof {
                lemma_first_where_is(n as int, |k: int| syns@[k].name@ == name@, i as int);
            }
            return Some(i);
        }
        i = i + 1;
    }
    None
}

/// The first syntax whose list of the given kind matches in `hay`.
fn find_by_list(syns: &Vec<SyntaxType>, kind: u8, hay: &[u8]) -> (r: Option<usize>)
    ensures
        r matches Some(i) ==> i < syns@.len() && list_index(syns@, kind as int, hay@) == Some(i as int),
        r is None ==> list_index(syns@, kind as int, hay@) is None,
{
    let n = syns.len();
    let mut i: usize = 0;
    while i < n
        invariant
            n == syns@.len(),
            i <= n,
            forall|j: int| 0 <= j < i ==> !list_matches(regex_list(syns@[j], kind as int), hay@),
        decreases n - i,
    {
        let hit = if kind == 0 {
            found_in_list(&syns[i].extensions, hay)
        } else if kind == 1 {
            found_in_list(&syns[i].headers, hay)
        } else {
            found_in_list(&syns[i].magics, hay)
        };
        if hit {
            proof {
                lemma_first_where_is(
                    n as int,
                    |k: int| list_matches(regex_list(syns@[k], kind as int), hay@),
                    i as int,
                );
            }
            return Some(i);
        }
        i = i + 1;
    }
    None
}

/// The syntax that applies to a file (see `applicable_syntax`), and whether
/// the override names no syntax (which is reported outside the help viewer).
fn choose_syntax(
    syntaxes: &Vec<SyntaxType>,
    syntaxstr: Option<&str>,
    inhelp: bool,
    fullname: &[u8],
    first_line: &[u8],
    use_magic: bool,
    magic_description: Option<&[u8]>,
) -> (r: (Option<usize>, bool))
    ensures
        ({
            let found = applicable_syntax(
                syntaxes@,
                match syntaxstr {
                    Some(s) => Some(s@),
                    None => None,
                },
                inhelp,
                fullname@,
                first_line@,
                use_magic,
                match magic_description {
                    Some(m) => Some(m@),
                    None => None,
                },
            );
            match r.0 {
                Some(i) => i < syntaxes@.len() && found == Some(i as int),
                None => found is None,
            }
        }),
        r.1 == (!inhelp && (syntaxstr matches Some(s) && name_index(syntaxes@, s@) is None)),
{
    let mut found: Option<usize> = None;
    let mut unknown_name = false;
    match syntaxstr {
        Some(s) => {
            found = find_by_name(syntaxes, s);
            if found.is_none() && !inhelp {
                unknown_name = true;
            }
        },
        None => {},
    }
    if found.is_none() && !inhelp {
        found = find_by_list(syntaxes, 0, fullname);
    }
    if found.is_none() && !inhelp {
        found = find_by_list(syntaxes, 1, first_line);
    }
    if found.is_none() && !inhelp && use_magic {
        match magic_description {
            Some(m) => {
                found = find_by_list(syntaxes, 2, m);
            },
            None => {},
        }
    }
    if found.is_none() && !inhelp {
        found = find_by_name(syntaxes, "default");
    }
    (found, unknown_name)
}

/// Which syntax applies to a file, whether the syntax named by the override
/// is unknown, and whether the rules of the chosen syntax are still to be
/// read from its file.
pub struct SyntaxChoice {
    pub syntax: Option<usize>,
    pub unknown_name: bool,
    pub needs_parse: bool,
}

/// Whether every syntax has few enough colour combinations to number them.
pub open spec fn numberable(syns: Seq<SyntaxType>) -> bool {
    forall|i: int| 0 <= i < syns.len() ==> distinct_in_order(color_pairs(#[trigger] syns[i].color@)).len()
        + NUMBER_OF_ELEMENTS <= i16::MAX
}

/// Find the syntax that applies to a file (see `applicable_syntax`), from
/// the override `syntaxstr`, the file's full path, its first line and, where
/// `use_magic`, its file type.  With no syntaxes, or with the override
/// "none", nothing is decided (`None`).  The chosen syntax gets its colour
/// pairs numbered when its rules are read already; otherwise `needs_parse`
/// says that they are to be read first, and the syntaxes stay as they are.
pub fn find_and_prime_applicable_syntax(
    syntaxes: &mut Vec<SyntaxType>,
    syntaxstr: Option<&str>,
    inhelp: bool,
    fullname: &[u8],
    first_line: &[u8],
    use_magic: bool,
    magic_description: Option<&[u8]>,
) -> (r: Option<SyntaxChoice>)
    requires
        numberable(old(syntaxes)@),
    ensures
        r is None <==> (old(syntaxes)@.len() == 0 || (syntaxstr matches Some(s) && s@ == "none"@)),
        r is None ==> final(syntaxes)@ == old(syntaxes)@,
        r matches Some(c) ==> {
            let found = applicable_syntax(
                old(syntaxes)@,
                match syntaxstr {
                    Some(s) => Some(s@),
                    None => None,
                },
                inhelp,
                fullname@,
                first_line@,
                use_magic,
                match magic_description {
                    Some(m) => Some(m@),
                    None => None,
                },
            );
            &&& (match c.syntax {
                Some(i) => found == Some(i as int),
                None => found is None,
            })
            &&& c.unknown_name == (!inhelp && (syntaxstr matches Some(s) && name_index(
                old(syntaxes)@,
                s@,
            ) is None))
            &&& c.needs_parse == (c.syntax matches Some(i) && old(syntaxes)@[i as int].filename@.len()
                > 0)
            &&& (match c.syntax {
                Some(i) => if c.needs_parse {
                    final(syntaxes)@ == old(syntaxes)@
                } else {
                    &&& final(syntaxes)@.len() == old(syntaxes)@.len()
                    &&& pairs_assigned(old(syntaxes)@[i as int], final(syntaxes)@[i as int])
                    &&& forall|j: int|
                        0 <= j < old(syntaxes)@.len() && j != i ==> #[trigger] final(syntaxes)@[j]
                            == old(syntaxes)@[j]
                },
                None => final(syntaxes)@ == old(syntaxes)@,
            })
        },
{
    if syntaxes.len() == 0 {
        return None;
    }
    match syntaxstr {
        Some(s) => {
            if string_eq(s, "none") {
                return None;
            }
        },
        None => {},
    }
    let (found, unknown_name) = choose_syntax(
        syntaxes,
        syntaxstr,
        inhelp,
        fullname,
        first_line,
        use_magic,
        magic_description,
    );
    let mut needs_parse = false;
    match found {
        Some(i) => {
            if syntaxes[i].filename.as_str().unicode_len() > 0 {
                needs_parse = true;
            } else {
                let mut s = syntaxes.remove(i);
                proof {
                    assert(numberable(old(syntaxes)@));
                    assert(s == old(syntaxes)@[i as int]);
                }
                set_syntax_colorpairs(&mut s);
                syntaxes.insert(i, s);
                proof {
                    assert forall|j: int|
                        0 <= j < old(syntaxes)@.len() && j != i implies #[trigger] syntaxes@[j]
                            == old(syntaxes)@[j] by {
                        if j < i {
                        } else {
                        }
                    }
                }
            }
        },
        None => {},
    }
    Some(SyntaxChoice { syntax: found, unknown_name, needs_parse })
}


/// The multi-line state recorded for rule `id` in a line's row, where the
/// row holds one; nothing otherwise.
pub open spec fn code_of(row: Seq<i16>, id: i16) -> i16 {
    if 0 <= id < row.len() {
        row[id as int]
    } else {
        NOTHING
    }
}

/// Whether the line `line` still matches the way that the rule with the
/// start expression `start` and the end expression `end` was recorded on it
/// (`code`): with no start for nothing; with no end (after a start) and,
/// where it has a start, no end at all for a line that is wholly covered;
/// with a start, an end after it, and no further start after that end for
/// a rule that starts and ends on the line; with a start and no end after
/// it for a rule that starts here; with an end and no start for a rule that
/// ends here.
pub open spec fn multi_still_matches(start: CompiledPattern, end: CompiledPattern, line: Seq<u8>, code: i16) -> bool {
    let sm = match_of(start, line, 0);
    let astart = sm is Some;
    let start_eo = match sm {
        Some(m) => m.1,
        None => 0,
    };
    let em = match_of(end, line.subrange(start_eo, line.len() as int), 0);
    let anend = em is Some;
    if code == NOTHING {
        !astart
    } else if code == WHOLELINE {
        !anend && (!astart || match_of(end, line, 0) is None)
    } else if code == JUSTONTHIS {
        match em {
            Some(m) => astart && match_of(start, line, start_eo + m.1) is None,
            None => false,
        }
    } else if code == STARTSHERE {
        astart && !anend
    } else if code == ENDSHERE {
        !astart && anend
    } else {
        true
    }
}

/// Whether `rule`, where it spans lines, still matches `line` the way its
/// row records.
pub open spec fn rule_agrees(rule: ColorType, line: Seq<u8>, row: Seq<i16>) -> bool {
    match (rule.start, rule.end) {
        (Some(s), Some(e)) => multi_still_matches(s, e, line, code_of(row, rule.id)),
        _ => true,
    }
}

/// Whether the multi-line rules of `syntax` no longer match `line` the way
/// its row records, or the line has no row yet.
pub open spec fn multis_changed(syntax: Option<SyntaxType>, line: Seq<u8>, row: Seq<i16>) -> bool {
    match syntax {
        Some(s) => s.multiscore != 0 && (row.len() == 0 || exists|i: int|
            0 <= i < s.color@.len() && !rule_agrees(#[trigger] s.color@[i], line, row)),
        None => false,
    }
}

/// Whether the rows of `syntax` disagree with `line` (which calls for a
/// repaint of everything after it as well).
pub open spec fn multis_perturbed(syntax: Option<SyntaxType>, line: Seq<u8>, row: Seq<i16>) -> bool {
    multis_changed(syntax, line, row) && row.len() != 0
}

/// Check whether the multi-line rules of `syntax` still match `line` the
/// way its row `multidata` records; where they do not, ask for the screen
/// to be refreshed (and, where the row exists, for the lines after it to be
/// repainted too).
pub fn check_the_multis(
    syntax: Option<&SyntaxType>,
    line: &[u8],
    multidata: &Vec<i16>,
    refresh_needed: &mut bool,
    perturbed: &mut bool,
)
    ensures
        *final(refresh_needed) == (*old(refresh_needed) || multis_changed(
            match syntax {
                Some(s) => Some(*s),
                None => None,
            },
            line@,
            multidata@,
        )),
        *final(perturbed) == (*old(perturbed) || multis_perturbed(
            match syntax {
                Some(s) => Some(*s),
                None => None,
            },
            line@,
            multidata@,
        )),
{
    let s = match syntax {
        Some(s) => s,
        None => return ,
    };
    if s.multiscore == 0 {
        return ;
    }
    if multidata.len() == 0 {
        *refresh_needed = true;
        return ;
    }
    let n = s.color.len();
    let mut i: usize = 0;
    while i < n
        invariant
            n == s.color@.len(),
            i <= n,
            forall|j: int| 0 <= j < i ==> rule_agrees(#[trigger] s.color@[j], line@, multidata@),
            *refresh_needed == *old(refresh_needed),
            *perturbed == *old(perturbed),
            s.multiscore != 0,
            multidata@.len() != 0,
            syntax == Some(s),
        decreases n - i,
    {
        let ink = &s.color[i];
        match (&ink.start, &ink.end) {
            (Some(start), Some(end)) => {
                let id = ink.id;
                let code: i16 = if id >= 0 && (id as usize) < multidata.len() {
                    multidata[id as usize]
                } else {
                    NOTHING
                };
                let agrees = multi_matches(start, end, line, code);
                if !agrees {
                    assert(!rule_agrees(s.color@[i as int], line@, multidata@));
                    *refresh_needed = true;
                    *perturbed = true;
                    return ;
                }
            },
            _ => {},
        }
        i = i + 1;
    }
}

/// Whether `line` still matches the rule with the expressions `start` and
/// `end` the way `code` records (see `multi_still_matches`).
fn multi_matches(start: &CompiledPattern, end: &CompiledPattern, line: &[u8], code: i16) -> (r: bool)
    ensures
        r == multi_still_matches(*start, *end, line@, code),
{
    let sm = regex_find_at(start, line, 0);
    let astart = sm.is_some();
    let start_eo: usize = match sm {
        Some(m) => m.1,
        None => 0,
    };
    let after = subvec(line, start_eo, line.len());
    let em = regex_find_at(end, after.as_slice(), 0);
    let anend = em.is_some();
    if code == NOTHING {
        !astart
    } else if code == WHOLELINE {
        !anend && (!astart || regex_find_at(end, line, 0).is_none())
    } else if code == JUSTONTHIS {
        match em {
            Some(e) => {
                if astart {
                    regex_find_at(start, line, start_eo + e.1).is_none()
                } else {
                    false
                }
            },
            None => false,
        }
    } else if code == STARTSHERE {
        astart && !anend
    } else if code == ENDSHERE {
        !astart && anend
    } else {
        true
    }
}


/// Where the match `m` starts (zero without a match).
pub open spec fn match_start(m: Option<(int, int)>) -> int {
    match m {
        Some(x) => x.0,
        None => 0,
    }
}

/// Where the match `m` ends (zero without a match).
pub open spec fn match_end(m: Option<(int, int)>) -> int {
    match m {
        Some(x) => x.1,
        None => 0,
    }
}

/// Whether `m` is a match that lies between `from` and `len`.
pub open spec fn valid_match(m: Option<(int, int)>, from: int, len: int) -> bool {
    match m {
        Some(x) => from <= x.0 <= x.1 <= len,
        None => false,
    }
}

/// The rows `md` with the state of rule `id` on line `line` set to `code`,
/// where that line's row holds the rule.
pub open spec fn mark(md: Seq<Seq<i16>>, line: int, id: i16, code: i16) -> Seq<Seq<i16>> {
    if 0 <= id < md[line].len() {
        md.update(line, md[line].update(id as int, code))
    } else {
        md
    }
}

/// The rows `md` with the state of rule `id` set to "wholly covered" on the
/// lines from `from` up to `to`.
pub open spec fn mark_whole(md: Seq<Seq<i16>>, from: int, to: int, id: i16) -> Seq<Seq<i16>> {
    Seq::new(
        md.len(),
        |m: int|
            if from <= m < to && 0 <= id < md[m].len() {
                md[m].update(id as int, WHOLELINE)
            } else {
                md[m]
            },
    )
}

/// Whether the end expression `end` matches on `line`.
pub open spec fn ends_on(end: CompiledPattern, line: Seq<u8>) -> bool {
    valid_match(match_of(end, line, 0), 0, line.len() as int)
}

/// The first line after `line` on which `end` matches.
pub open spec fn end_line_after(lines: Seq<Seq<u8>>, end: CompiledPattern, line: int) -> Option<int> {
    first_where(lines.len() as int, |t: int| t > line && ends_on(end, lines[t]))
}

/// The rows after the scan of the rule with the expressions `start` and
/// `end` (number `id`) goes on from byte `index` of line `line` (where
/// `fresh`, the line is yet to be begun: its state is first set to nothing).
/// On a line, each match of the start is followed by a search for the end
/// after it: an end on the same line marks the line as starting and ending
/// the rule and the search for starts goes on after that end (one character
/// further where start and end matched nothing); with no end on the line,
/// the line is marked as starting the rule, the lines up to the next line
/// with an end are marked as wholly covered and that line as ending the rule,
/// and the search for starts goes on after its end; without such a line, all
/// the lines below are wholly covered and the scan is done.
pub open spec fn scan(
    lines: Seq<Seq<u8>>,
    start: CompiledPattern,
    end: CompiledPattern,
    id: i16,
    md: Seq<Seq<i16>>,
    line: int,
    index: int,
    fresh: bool,
    utf8: bool,
) -> Seq<Seq<i16>>
    decreases lines.len() - line, (if fresh { 1int } else { 0int }), lines[line].len() + 1 - index,
{
    if line < 0 || line >= lines.len() {
        md
    } else if fresh {
        scan(lines, start, end, id, mark(md, line, id, NOTHING), line, 0, false, utf8)
    } else if index < 0 || index > lines[line].len() {
        md
    } else {
        let data = lines[line];
        let sm = match_of(start, data, index);
        if !valid_match(sm, index, data.len() as int) {
            scan(lines, start, end, id, md, line + 1, 0, true, utf8)
        } else {
            let so = match_start(sm);
            let eo = match_end(sm);
            let em = match_of(end, data, eo);
            if valid_match(em, eo, data.len() as int) {
                let md1 = mark(md, line, id, JUSTONTHIS);
                let eeo = match_end(em);
                if (eo - so) + (eeo - eo) == 0 {
                    if eeo >= data.len() {
                        scan(lines, start, end, id, md1, line + 1, 0, true, utf8)
                    } else {
                        proof {
                            lemma_char_len_bounds(data, eeo, utf8);
                        }
                        scan(lines, start, end, id, md1, line, eeo + char_len(data, eeo, utf8), false, utf8)
                    }
                } else {
                    scan(lines, start, end, id, md1, line, eeo, false, utf8)
                }
            } else {
                let md1 = mark(md, line, id, STARTSHERE);
                match end_line_after(lines, end, line) {
                    None => mark_whole(md1, line + 1, lines.len() as int, id),
                    Some(t) => if line < t < lines.len() {
                        scan(
                            lines,
                            start,
                            end,
                            id,
                            mark(mark_whole(md1, line + 1, t, id), t, id, ENDSHERE),
                            t,
                            match_end(match_of(end, lines[t], 0)),
                            false,
                            utf8,
                        )
                    } else {
                        md1
                    },
                }
            }
        }
    }
}


/// The rows of multi-line states, as sequences.
pub open spec fn rows_of(md: Seq<Vec<i16>>) -> Seq<Seq<i16>> {
    md.map_values(|v: Vec<i16>| v@)
}

/// Set the state of rule `id` on line `line` to `code`, where that line's
/// row holds the rule.
fn set_code(md: &mut Vec<Vec<i16>>, line: usize, id: i16, code: i16)
    requires
        line < old(md)@.len(),
    ensures
        rows_of(final(md)@) == mark(rows_of(old(md)@), line as int, id, code),
        final(md)@.len() == old(md)@.len(),
{
    if id >= 0 && (id as usize) < md[line].len() {
        let mut row: Vec<i16> = Vec::new();
        md.set_and_swap(line, &mut row);
        row.set(id as usize, code);
        md.set_and_swap(line, &mut row);
    }
    proof {
        assert(rows_of(md@) =~= mark(rows_of(old(md)@), line as int, id, code));
    }
}

/// Mark the lines from `from` up to `to` as wholly covered by rule `id`.
fn set_whole(md: &mut Vec<Vec<i16>>, from: usize, to: usize, id: i16)
    requires
        from <= to <= old(md)@.len(),
    ensures
        rows_of(final(md)@) == mark_whole(rows_of(old(md)@), from as int, to as int, id),
        final(md)@.len() == old(md)@.len(),
{
    let mut m = from;
    while m < to
        invariant
            from <= m <= to <= md@.len(),
            md@.len() == old(md)@.len(),
            rows_of(md@) == mark_whole(rows_of(old(md)@), from as int, m as int, id),
        decreases to - m,
    {
        let ghost before = rows_of(md@);
        set_code(md, m, id, WHOLELINE);
        proof {
            assert(rows_of(md@) =~= mark_whole(rows_of(old(md)@), from as int, m + 1, id));
        }
        m = m + 1;
    }
}

/// The first line after `line` on which `end` matches, with where that
/// match ends.
fn find_end_after(lines: &Vec<LineNode>, end: &CompiledPattern, line: usize) -> (r: Option<(usize, usize)>)
    requires
        line < lines@.len(),
    ensures
        match r {
            Some((t, e)) => end_line_after(texts(lines@), *end, line as int) == Some(t as int) && line
                < t < lines@.len() && e == match_end(match_of(*end, texts(lines@)[t as int], 0)) && e
                <= texts(lines@)[t as int].len(),
            None => end_line_after(texts(lines@), *end, line as int) is None,
        },
{
    let ghost tx = texts(lines@);
    let n = lines.len();
    let mut t = line + 1;
    while t < n
        invariant
            n == lines@.len(),
            tx == texts(lines@),
            tx.len() == n,
            line < t <= n,
            forall|k: int| 0 <= k < t ==> !(k > line && ends_on(*end, #[trigger] tx[k])),
        decreases n - t,
    {
        assert(tx[t as int] == lines@[t as int].data@);
        match regex_find_at(end, lines[t].data.as_slice(), 0) {
            Some(m) => {
                proof {
                    lemma_first_where_is(
                        n as int,
                        |k: int| k > line && ends_on(*end, tx[k]),
                        t as int,
                    );
                }
                return Some((t, m.1));
            },
            None => {},
        }
        t = t + 1;
    }
    proof {
        let p = |k: int| k > line && ends_on(*end, tx[k]);
        assert(!(exists|k: int| 0 <= k < n && #[trigger] p(k)));
    }
    None
}


/// Scan the file for the rule with the expressions `start` and `end` (number
/// `id`), and record on each line how the rule covers it (see `scan`).
fn scan_rule(
    lines: &Vec<LineNode>,
    start: &CompiledPattern,
    end: &CompiledPattern,
    id: i16,
    md: &mut Vec<Vec<i16>>,
    utf8: bool,
)
    requires
        old(md)@.len() == lines@.len(),
    ensures
        rows_of(final(md)@) == scan(texts(lines@), *start, *end, id, rows_of(old(md)@), 0, 0, true, utf8),
        final(md)@.len() == old(md)@.len(),
{
    let ghost tx = texts(lines@);
    let ghost goal = scan(tx, *start, *end, id, rows_of(md@), 0, 0, true, utf8);
    let n = lines.len();
    let mut line: usize = 0;
    let mut index: usize = 0;
    let mut fresh = true;
    while line < n
        invariant
            n == lines@.len(),
            tx == texts(lines@),
            tx.len() == n,
            md@.len() == n,
            line <= n,
            fresh ==> index == 0,
            line < n ==> index <= tx[line as int].len(),
            scan(tx, *start, *end, id, rows_of(md@), line as int, index as int, fresh, utf8) == goal,
        decreases n - line, (if fresh { 1int } else { 0int }), (if line < n { tx[line as int].len() + 1 - index } else { 0 }),
    {
        let ghost cur = rows_of(md@);
        proof {
            assert(tx[line as int] == lines@[line as int].data@);
        }
        if fresh {
            set_code(md, line, id, NOTHING);
            fresh = false;
        } else {
            let data = lines[line].data.as_slice();
            match regex_find_at(start, data, index) {
                None => {
                    line = line + 1;
                    index = 0;
                    fresh = true;
                },
                Some(sm) => {
                    let so = sm.0;
                    let eo = sm.1;
                    match regex_find_at(end, data, eo) {
                        Some(em) => {
                            let eeo = em.1;
                            set_code(md, line, id, JUSTONTHIS);
                            if (eo - so) + (eeo - eo) == 0 {
                                if eeo >= data.len() {
                                    line = line + 1;
                                    index = 0;
                                    fresh = true;
                                } else {
                                    proof {
                                        lemma_char_len_bounds(data@, eeo as int, utf8);
                                    }
                                    index = eeo + char_length_at(data, eeo, utf8);
                                }
                            } else {
                                index = eeo;
                            }
                        },
                        None => {
                            set_code(md, line, id, STARTSHERE);
                            match find_end_after(lines, end, line) {
                                None => {
                                    set_whole(md, line + 1, n, id);
                                    line = n;
                                },
                                Some((t, teo)) => {
                                    set_whole(md, line + 1, t, id);
                                    set_code(md, t, id, ENDSHERE);
                                    line = t;
                                    index = teo;
                                },
                            }
                        },
                    }
                },
            }
        }
    }
}


/// The rows `md` with each empty row replaced by a row of `multiscore`
/// zeros.
pub open spec fn rows_allocated(md: Seq<Seq<i16>>, multiscore: int) -> Seq<Seq<i16>> {
    Seq::new(
        md.len(),
        |i: int|
            if md[i].len() == 0 {
                Seq::new(multiscore as nat, |k: int| 0i16)
            } else {
                md[i]
            },
    )
}

/// The rows after the scan of `rule`, where it spans lines.
pub open spec fn after_rule(lines: Seq<Seq<u8>>, rule: ColorType, md: Seq<Seq<i16>>, utf8: bool) -> Seq<Seq<i16>> {
    match (rule.start, rule.end) {
        (Some(s), Some(e)) => scan(lines, s, e, rule.id, md, 0, 0, true, utf8),
        _ => md,
    }
}

/// The rows after the scans of the rules `rules`, in order.
pub open spec fn after_rules(lines: Seq<Seq<u8>>, rules: Seq<ColorType>, md: Seq<Seq<i16>>, utf8: bool) -> Seq<Seq<i16>>
    decreases rules.len(),
{
    if rules.len() == 0 {
        md
    } else {
        after_rule(lines, rules.last(), after_rules(lines, rules.drop_last(), md, utf8), utf8)
    }
}

/// The multi-line states of the lines `lines` after they are worked out
/// anew for `syntax`: nothing changes where syntax colouring is off, there
/// is no syntax, or it has no rules that span lines; otherwise each line
/// without a row gets one, and the rules are scanned in order.
pub open spec fn precalculated(
    syntax: Option<SyntaxType>,
    no_syntax: bool,
    lines: Seq<Seq<u8>>,
    md: Seq<Seq<i16>>,
    utf8: bool,
) -> Seq<Seq<i16>> {
    match syntax {
        Some(s) => if no_syntax || s.multiscore == 0 {
            md
        } else {
            after_rules(lines, s.color@, rows_allocated(md, s.multiscore as int), utf8)
        },
        None => md,
    }
}

/// A row of `n` zeros.
fn zeros(n: usize) -> (r: Vec<i16>)
    ensures
        r@ == Seq::new(n as nat, |k: int| 0i16),
{
    let mut r: Vec<i16> = Vec::new();
    let mut k: usize = 0;
    while k < n
        invariant
            k <= n,
            r@ == Seq::new(k as nat, |j: int| 0i16),
        decreases n - k,
    {
        r.push(0);
        k = k + 1;
        proof {
            assert(r@ =~= Seq::new(k as nat, |j: int| 0i16));
        }
    }
    r
}

/// Work out anew for every line of the file (`lines`, whose rows of
/// multi-line states are `multidata`) how each rule of `syntax` that spans
/// lines covers it (see `precalculated`).
pub fn precalc_multicolorinfo(
    syntax: Option<&SyntaxType>,
    no_syntax: bool,
    lines: &Vec<LineNode>,
    multidata: &mut Vec<Vec<i16>>,
    utf8: bool,
)
    requires
        old(multidata)@.len() == lines@.len(),
        syntax matches Some(s) ==> s.multiscore >= 0,
    ensures
        rows_of(final(multidata)@) == precalculated(
            match syntax {
                Some(s) => Some(*s),
                None => None,
            },
            no_syntax,
            texts(lines@),
            rows_of(old(multidata)@),
            utf8,
        ),
{
    if no_syntax {
        return ;
    }
    let s = match syntax {
        Some(s) => s,
        None => return ,
    };
    if s.multiscore == 0 {
        return ;
    }
    let ghost tx = texts(lines@);
    let ghost alloc = rows_allocated(rows_of(multidata@), s.multiscore as int);
    let n = lines.len();
    let mut k: usize = 0;
    while k < n
        invariant
            n == lines@.len(),
            multidata@.len() == n,
            k <= n,
            s.multiscore > 0,
            alloc == rows_allocated(rows_of(old(multidata)@), s.multiscore as int),
            alloc.len() == n,
            forall|j: int| 0 <= j < k ==> #[trigger] rows_of(multidata@)[j] == alloc[j],
            forall|j: int| k <= j < n ==> #[trigger] multidata@[j] == old(multidata)@[j],
        decreases n - k,
    {
        let ghost before = multidata@;
        if multidata[k].len() == 0 {
            let row = zeros(s.multiscore as usize);
            multidata.set(k, row);
        }
        proof {
            assert(rows_of(old(multidata)@)[k as int] == old(multidata)@[k as int]@);
            assert(rows_of(multidata@)[k as int] == multidata@[k as int]@);
            assert(rows_of(multidata@)[k as int] == alloc[k as int]);
            assert forall|j: int| 0 <= j < k implies #[trigger] rows_of(multidata@)[j] == alloc[j] by {
                assert(multidata@[j] == before[j]);
                assert(rows_of(before)[j] == before[j]@);
                assert(rows_of(multidata@)[j] == multidata@[j]@);
            }
        }
        k = k + 1;
    }
    proof {
        assert(rows_of(multidata@) =~= alloc);
    }
    let rules = &s.color;
    let m = rules.len();
    let mut i: usize = 0;
    while i < m
        invariant
            m == rules@.len(),
            i <= m,
            n == lines@.len(),
            multidata@.len() == n,
            tx == texts(lines@),
            rows_of(multidata@) == after_rules(tx, rules@.subrange(0, i as int), alloc, utf8),
        decreases m - i,
    {
        proof {
            assert(rules@.subrange(0, i + 1).drop_last() =~= rules@.subrange(0, i as int));
            assert(rules@.subrange(0, i + 1).last() == rules@[i as int]);
        }
        let ink = &rules[i];
        match (&ink.start, &ink.end) {
            (Some(st), Some(en)) => {
                scan_rule(lines, st, en, ink.id, multidata, utf8);
            },
            _ => {},
        }
        i = i + 1;
    }
    proof {
        assert(rules@.subrange(0, m as int) =~= rules@);
    }
}

/// Move the first syntax named `name` to the front of the list (where the
/// rules of a syntax are read into the first syntax); nothing changes where
/// there is no such syntax or it is in front already.
pub fn move_syntax_to_head(syntaxes: &mut Vec<SyntaxType>, name: &str)
    ensures
        match name_index(old(syntaxes)@, name@) {
            Some(i) => final(syntaxes)@ == seq![old(syntaxes)@[i]] + old(syntaxes)@.remove(i),
            None => final(syntaxes)@ == old(syntaxes)@,
        },
{
    match find_by_name(syntaxes, name) {
        Some(i) => {
            let s = syntaxes.remove(i);
            syntaxes.insert(0, s);
            assert(syntaxes@ =~= seq![old(syntaxes)@[i as int]] + old(syntaxes)@.remove(i as int));
        },
        None => {},
    }
}

} // verus!
