//! Reading and building text.
//!
//! A text is described by the sequence of its characters. Every function here says in its
//! contract which characters it gives back, so that the modules above can speak of messages,
//! protocol lines and addresses exactly.
use vstd::prelude::*;

verus! {

/// `String::push` appends one character to the end of the string.
pub assume_specification[ String::push ](s: &mut String, c: char)
    ensures
        final(s)@ == old(s)@.push(c),
;

// ---------------------------------------------------------------------------------------------
// Views of the containers that hold text
// ---------------------------------------------------------------------------------------------
/// The characters of every text in a list.
pub open spec fn views(list: Seq<String>) -> Seq<Seq<char>> {
    list.map_values(|s: String| s@)
}

/// The characters of an optional text.
pub open spec fn opt_view(o: Option<String>) -> Option<Seq<char>> {
    match o {
        Some(s) => Some(s@),
        None => None,
    }
}

/// The characters of an optional borrowed text.
pub open spec fn opt_str(o: Option<&str>) -> Option<Seq<char>> {
    match o {
        Some(s) => Some(s@),
        None => None,
    }
}

// ---------------------------------------------------------------------------------------------
// Classes of characters
// ---------------------------------------------------------------------------------------------
/// Whether a character has the Unicode property `White_Space`.
pub open spec fn is_space(c: char) -> bool {
    let n = c as int;
    ||| 0x09 <= n <= 0x0d
    ||| n == 0x20
    ||| n == 0x85
    ||| n == 0xa0
    ||| n == 0x1680
    ||| 0x2000 <= n <= 0x200a
    ||| n == 0x2028
    ||| n == 0x2029
    ||| n == 0x202f
    ||| n == 0x205f
    ||| n == 0x3000
}

/// A set of characters that separates or surrounds text.
#[derive(Clone, Copy)]
pub enum Class {
    /// White space.
    Space,
    /// One character.
    Is(char),
    /// Either of two characters.
    Either(char, char),
    /// One character, or white space.
    SpaceOr(char),
    /// What may stand between the parts of a JSON text.
    Blank,
}

impl Class {
    /// Whether the class holds a character.
    pub open spec fn has(self, c: char) -> bool {
        match self {
            Class::Space => is_space(c),
            Class::Is(a) => c == a,
            Class::Either(a, b) => c == a || c == b,
            Class::SpaceOr(a) => c == a || is_space(c),
            Class::Blank => c == ' ' || c == '\t' || c == '\n' || c == '\r',
        }
    }

    /// Whether the class holds a character.
    pub fn holds(&self, c: char) -> (r: bool)
        ensures
            r == self.has(c),
    {
        match self {
            Class::Space => space(c),
            Class::Is(a) => c == *a,
            Class::Either(a, b) => c == *a || c == *b,
            Class::SpaceOr(a) => c == *a || space(c),
            Class::Blank => c == ' ' || c == '\t' || c == '\n' || c == '\r',
        }
    }
}

/// Whether a character is white space.
pub fn space(c: char) -> (r: bool)
    ensures
        r == is_space(c),
{
    let n: u32 = c as u32;
    (0x09 <= n && n <= 0x0d) || n == 0x20 || n == 0x85 || n == 0xa0 || n == 0x1680 || (0x2000 <= n
        && n <= 0x200a) || n == 0x2028 || n == 0x2029 || n == 0x202f || n == 0x205f || n == 0x3000
}

// ---------------------------------------------------------------------------------------------
// Characters and strings
// ---------------------------------------------------------------------------------------------
/// Whether two texts hold the same characters.
pub fn same(a: &str, b: &str) -> (r: bool)
    ensures
        r == (a@ == b@),
{
    a.to_owned() == b.to_owned()
}

/// The characters of a text, in order.
pub fn chars_of(s: &str) -> (r: Vec<char>)
    ensures
        r@ == s@,
{
    let mut out: Vec<char> = Vec::new();
    for c in it: s.chars()
        invariant
            out@ == s@.take(it.index() as int),
            it.seq() == s@,
    {
        out.push(c);
    }
    out
}

/// The text made of the characters from one position up to another.
pub fn text_between(cs: &Vec<char>, from: usize, to: usize) -> (r: String)
    requires
        from <= to <= cs.len(),
    ensures
        r@ == cs@.subrange(from as int, to as int),
{
    let mut out = String::new();
    let mut i: usize = from;
    while i < to
        invariant
            from <= i <= to <= cs.len(),
            out@ == cs@.subrange(from as int, i as int),
        decreases to - i,
    {
        out.push(cs[i]);
        i = i + 1;
        assert(cs@.subrange(from as int, i as int) =~= cs@.subrange(from as int, i - 1).push(
            cs@[i - 1],
        ));
    }
    out
}

/// An owned copy of an optional text.
pub fn copy_opt(o: &Option<String>) -> (r: Option<String>)
    ensures
        r == *o,
{
    match o {
        Some(s) => Some(s.clone()),
        None => None,
    }
}

/// An owned copy of a list of texts.
pub fn copy_list(list: &Vec<String>) -> (r: Vec<String>)
    ensures
        r@ == list@,
        views(r@) == views(list@),
{
    let mut out: Vec<String> = Vec::new();
    let mut i: usize = 0;
    while i < list.len()
        invariant
            i <= list.len(),
            out@ == list@.take(i as int),
        decreases list.len() - i,
    {
        out.push(list[i].clone());
        i = i + 1;
    }
    assert(list@.take(i as int) =~= list@);
    out
}

/// Whether a list of texts holds a given one.
pub fn list_has(list: &Vec<String>, s: &str) -> (r: bool)
    ensures
        r == views(list@).contains(s@),
{
    let mut i: usize = 0;
    while i < list.len()
        invariant
            i <= list.len(),
            forall|k: int| 0 <= k < i ==> views(list@)[k] != s@,
        decreases list.len() - i,
    {
        if same(list[i].as_str(), s) {
            assert(views(list@)[i as int] == s@);
            return true;
        }
        i = i + 1;
    }
    false
}

/// Two texts, one after the other.
pub fn join2(a: &str, b: &str) -> (r: String)
    ensures
        r@ == a@ + b@,
{
    a.to_owned().concat(b)
}

/// Three texts, one after the other.
pub fn join3(a: &str, b: &str, c: &str) -> (r: String)
    ensures
        r@ == a@ + b@ + c@,
{
    a.to_owned().concat(b).concat(c)
}

/// Four texts, one after the other.
pub fn join4(a: &str, b: &str, c: &str, d: &str) -> (r: String)
    ensures
        r@ == a@ + b@ + c@ + d@,
{
    a.to_owned().concat(b).concat(c).concat(d)
}

/// Five texts, one after the other.
pub fn join5(a: &str, b: &str, c: &str, d: &str, e: &str) -> (r: String)
    ensures
        r@ == a@ + b@ + c@ + d@ + e@,
{
    a.to_owned().concat(b).concat(c).concat(d).concat(e)
}

// ---------------------------------------------------------------------------------------------
// Trimming
// ---------------------------------------------------------------------------------------------
/// What is left of a text after the characters of a class at its front are dropped.
pub open spec fn skip_front(s: Seq<char>, class: Class) -> Seq<char>
    decreases s.len(),
{
    if s.len() > 0 && class.has(s[0]) {
        skip_front(s.drop_first(), class)
    } else {
        s
    }
}

/// What is left of a text after the characters of a class at its end are dropped.
pub open spec fn skip_back(s: Seq<char>, class: Class) -> Seq<char>
    decreases s.len(),
{
    if s.len() > 0 && class.has(s.last()) {
        skip_back(s.drop_last(), class)
    } else {
        s
    }
}

/// A text without the white space around it.
pub open spec fn trimmed(s: Seq<char>) -> Seq<char> {
    skip_back(skip_front(s, Class::Space), Class::Space)
}

/// The text without the characters of a class at its front.
pub fn trim_front(s: &str, class: &Class) -> (r: String)
    ensures
        r@ == skip_front(s@, *class),
{
    let cs = chars_of(s);
    let mut i: usize = 0;
    assert(cs@.skip(0) =~= cs@);
    while i < cs.len() && class.holds(cs[i])
        invariant
            i <= cs.len(),
            skip_front(cs@, *class) == skip_front(cs@.skip(i as int), *class),
        decreases cs.len() - i,
    {
        assert(cs@.skip(i as int).drop_first() =~= cs@.skip(i + 1));
        i = i + 1;
    }
    assert(cs@.subrange(i as int, cs@.len() as int) =~= cs@.skip(i as int));
    text_between(&cs, i, cs.len())
}

/// The text without the characters of a class at its end.
pub fn trim_back(s: &str, class: &Class) -> (r: String)
    ensures
        r@ == skip_back(s@, *class),
{
    let cs = chars_of(s);
    let mut n: usize = cs.len();
    assert(cs@.take(n as int) =~= cs@);
    while n > 0 && class.holds(cs[n - 1])
        invariant
            n <= cs.len(),
            skip_back(cs@, *class) == skip_back(cs@.take(n as int), *class),
        decreases n,
    {
        assert(cs@.take(n as int).drop_last() =~= cs@.take(n - 1));
        n = n - 1;
    }
    assert(cs@.subrange(0, n as int) =~= cs@.take(n as int));
    text_between(&cs, 0, n)
}

/// The text without the white space around it.
pub fn trim(s: &str) -> (r: String)
    ensures
        r@ == trimmed(s@),
{
    let front = trim_front(s, &Class::Space);
    trim_back(front.as_str(), &Class::Space)
}

/// Whether a text is white space only.
pub fn is_blank(s: &str) -> (r: bool)
    ensures
        r == (trimmed(s@).len() == 0),
{
    trim(s).as_str().is_empty()
}

// ---------------------------------------------------------------------------------------------
// Looking for text inside text
// ---------------------------------------------------------------------------------------------
/// Whether a pattern stands in a text at a position.
pub open spec fn occurs_at(s: Seq<char>, pattern: Seq<char>, i: int) -> bool {
    0 <= i && i + pattern.len() <= s.len() && s.subrange(i, i + pattern.len()) == pattern
}

/// Whether a pattern stands somewhere in a text.
pub open spec fn holds_text(s: Seq<char>, pattern: Seq<char>) -> bool {
    exists|i: int| occurs_at(s, pattern, i)
}

/// A pattern that stands at a position stands somewhere.
pub proof fn lemma_holds_at(s: Seq<char>, pattern: Seq<char>, i: int)
    requires
        0 <= i,
        i + pattern.len() <= s.len(),
        s.subrange(i, i + pattern.len()) =~= pattern,
    ensures
        holds_text(s, pattern),
{
    assert(occurs_at(s, pattern, i));
}

/// A part of a text stands in it.
pub proof fn lemma_part_is_held(head: Seq<char>, part: Seq<char>, tail: Seq<char>)
    ensures
        holds_text(head + part + tail, part),
{
    let whole = head + part + tail;
    assert(whole.subrange(head.len() as int, (head.len() + part.len()) as int) =~= part);
    lemma_holds_at(whole, part, head.len() as int);
}

/// A pattern that stands in a part of a text stands in the text.
pub proof fn lemma_holds_inside(
    head: Seq<char>,
    part: Seq<char>,
    tail: Seq<char>,
    pattern: Seq<char>,
)
    requires
        holds_text(part, pattern),
    ensures
        holds_text(head + part + tail, pattern),
{
    let i = choose|i: int| occurs_at(part, pattern, i);
    let whole = head + part + tail;
    assert(whole.subrange(head.len() + i, head.len() + i + pattern.len()) =~= part.subrange(
        i,
        i + pattern.len(),
    ));
    lemma_holds_at(whole, pattern, head.len() + i);
}

/// Whether a position is the first one at which the pattern stands.
pub open spec fn first_at(s: Seq<char>, pattern: Seq<char>, i: int) -> bool {
    occurs_at(s, pattern, i) && forall|k: int| 0 <= k < i ==> !occurs_at(s, pattern, k)
}

/// Whether a position is the last one at which the pattern stands.
pub open spec fn last_at(s: Seq<char>, pattern: Seq<char>, i: int) -> bool {
    occurs_at(s, pattern, i) && forall|k: int| i < k ==> !occurs_at(s, pattern, k)
}

/// A text cut in two at the first place where a pattern stands; the pattern itself is dropped.
pub open spec fn cut_first(s: Seq<char>, pattern: Seq<char>) -> Option<(Seq<char>, Seq<char>)> {
    if holds_text(s, pattern) {
        let i = choose|i: int| first_at(s, pattern, i);
        Some((s.take(i), s.skip(i + pattern.len())))
    } else {
        None
    }
}

/// A text cut in two at the last place where a pattern stands; the pattern itself is dropped.
pub open spec fn cut_last(s: Seq<char>, pattern: Seq<char>) -> Option<(Seq<char>, Seq<char>)> {
    if holds_text(s, pattern) {
        let i = choose|i: int| last_at(s, pattern, i);
        Some((s.take(i), s.skip(i + pattern.len())))
    } else {
        None
    }
}

/// What follows a prefix, if the text starts with it.
pub open spec fn after_prefix(s: Seq<char>, prefix: Seq<char>) -> Option<Seq<char>> {
    if prefix.is_prefix_of(s) {
        Some(s.skip(prefix.len() as int))
    } else {
        None
    }
}

/// Where a pattern first stands fixes the cut.
pub proof fn lemma_cut_first(s: Seq<char>, pattern: Seq<char>, i: int)
    requires
        first_at(s, pattern, i),
    ensures
        cut_first(s, pattern) == Some((s.take(i), s.skip(i + pattern.len()))),
{
    let j = choose|j: int| first_at(s, pattern, j);
    assert(first_at(s, pattern, j));
    if i < j {
        assert(!occurs_at(s, pattern, i));
    }
    if j < i {
        assert(!occurs_at(s, pattern, j));
    }
}

/// Where a pattern last stands fixes the cut.
pub proof fn lemma_cut_last(s: Seq<char>, pattern: Seq<char>, i: int)
    requires
        last_at(s, pattern, i),
    ensures
        cut_last(s, pattern) == Some((s.take(i), s.skip(i + pattern.len()))),
{
    let j = choose|j: int| last_at(s, pattern, j);
    assert(last_at(s, pattern, j));
    if i < j {
        assert(!occurs_at(s, pattern, j));
    }
    if j < i {
        assert(!occurs_at(s, pattern, i));
    }
}

/// Whether the pattern stands in the characters at a position.
fn stands_at(cs: &Vec<char>, pattern: &Vec<char>, i: usize) -> (r: bool)
    requires
        i + pattern.len() <= cs.len(),
    ensures
        r == occurs_at(cs@, pattern@, i as int),
{
    let mut k: usize = 0;
    while k < pattern.len()
        invariant
            i + pattern.len() <= cs.len(),
            k <= pattern.len(),
            forall|m: int| 0 <= m < k ==> cs@[i + m] == pattern@[m],
        decreases pattern.len() - k,
    {
        if cs[i + k] != pattern[k] {
            assert(cs@.subrange(i as int, i + pattern@.len())[k as int] == cs@[i + k]);
            return false;
        }
        k = k + 1;
    }
    assert(cs@.subrange(i as int, i + pattern@.len()) =~= pattern@);
    true
}

/// The first position at which the pattern stands.
fn find(cs: &Vec<char>, pattern: &Vec<char>) -> (r: Option<usize>)
    ensures
        match r {
            Some(i) => first_at(cs@, pattern@, i as int),
            None => !holds_text(cs@, pattern@),
        },
{
    if pattern.len() > cs.len() {
        return None;
    }
    let last: usize = cs.len() - pattern.len();
    let mut i: usize = 0;
    loop
        invariant
            last + pattern.len() == cs.len(),
            i <= last,
            forall|k: int| 0 <= k < i ==> !occurs_at(cs@, pattern@, k),
        decreases last - i,
    {
        if stands_at(cs, pattern, i) {
            return Some(i);
        }
        if i == last {
            return None;
        }
        i = i + 1;
    }
}

/// The last position at which the pattern stands.
fn find_last(cs: &Vec<char>, pattern: &Vec<char>) -> (r: Option<usize>)
    ensures
        match r {
            Some(i) => last_at(cs@, pattern@, i as int),
            None => !holds_text(cs@, pattern@),
        },
{
    if pattern.len() > cs.len() {
        return None;
    }
    let mut i: usize = cs.len() - pattern.len();
    loop
        invariant
            i + pattern.len() <= cs.len(),
            forall|k: int| i < k ==> !occurs_at(cs@, pattern@, k),
        decreases i,
    {
        if stands_at(cs, pattern, i) {
            return Some(i);
        }
        if i == 0 {
            return None;
        }
        i = i - 1;
    }
}

/// Whether the text holds the pattern.
pub fn contains(s: &str, pattern: &str) -> (r: bool)
    ensures
        r == holds_text(s@, pattern@),
{
    let cs = chars_of(s);
    let ps = chars_of(pattern);
    find(&cs, &ps).is_some()
}

/// The text before and after the first place where the pattern stands.
pub fn split_once(s: &str, pattern: &str) -> (r: Option<(String, String)>)
    ensures
        match r {
            Some(p) => cut_first(s@, pattern@) == Some((p.0@, p.1@)),
            None => cut_first(s@, pattern@) is None,
        },
{
    let cs = chars_of(s);
    let ps = chars_of(pattern);
    match find(&cs, &ps) {
        Some(i) => {
            assert(i + ps.len() <= cs.len());
            proof {
                lemma_cut_first(s@, pattern@, i as int);
                assert(s@.subrange(0, i as int) =~= s@.take(i as int));
                assert(s@.subrange(i + pattern@.len(), s@.len() as int) =~= s@.skip(
                    i + pattern@.len(),
                ));
            }
            Some((text_between(&cs, 0, i), text_between(&cs, i + ps.len(), cs.len())))
        },
        None => None,
    }
}

/// The text before and after the last place where the pattern stands.
pub fn split_last(s: &str, pattern: &str) -> (r: Option<(String, String)>)
    ensures
        match r {
            Some(p) => cut_last(s@, pattern@) == Some((p.0@, p.1@)),
            None => cut_last(s@, pattern@) is None,
        },
{
    let cs = chars_of(s);
    let ps = chars_of(pattern);
    match find_last(&cs, &ps) {
        Some(i) => {
            assert(i + ps.len() <= cs.len());
            proof {
                lemma_cut_last(s@, pattern@, i as int);
                assert(s@.subrange(0, i as int) =~= s@.take(i as int));
                assert(s@.subrange(i + pattern@.len(), s@.len() as int) =~= s@.skip(
                    i + pattern@.len(),
                ));
            }
            Some((text_between(&cs, 0, i), text_between(&cs, i + ps.len(), cs.len())))
        },
        None => None,
    }
}

/// Whether the text starts with the prefix.
pub fn starts_with(s: &str, prefix: &str) -> (r: bool)
    ensures
        r == prefix@.is_prefix_of(s@),
{
    let cs = chars_of(s);
    let ps = chars_of(prefix);
    if ps.len() > cs.len() {
        return false;
    }
    stands_at(&cs, &ps, 0)
}

/// Whether the text ends with the suffix.
pub fn ends_with(s: &str, suffix: &str) -> (r: bool)
    ensures
        r == suffix@.is_suffix_of(s@),
{
    let cs = chars_of(s);
    let ps = chars_of(suffix);
    if ps.len() > cs.len() {
        return false;
    }
    stands_at(&cs, &ps, cs.len() - ps.len())
}

/// What follows the prefix, if the text starts with it.
pub fn strip_prefix(s: &str, prefix: &str) -> (r: Option<String>)
    ensures
        opt_view(r) == after_prefix(s@, prefix@),
{
    if starts_with(s, prefix) {
        let cs = chars_of(s);
        let n: usize = chars_of(prefix).len();
        assert(s@.subrange(n as int, s@.len() as int) =~= s@.skip(n as int));
        Some(text_between(&cs, n, cs.len()))
    } else {
        None
    }
}

/// The first characters of a text, at most so many.
pub fn take_chars(s: &str, n: usize) -> (r: String)
    ensures
        r@ == (if s@.len() <= n {
            s@
        } else {
            s@.take(n as int)
        }),
{
    let cs = chars_of(s);
    if cs.len() <= n {
        assert(s@.subrange(0, s@.len() as int) =~= s@);
        text_between(&cs, 0, cs.len())
    } else {
        assert(s@.subrange(0, n as int) =~= s@.take(n as int));
        text_between(&cs, 0, n)
    }
}

// ---------------------------------------------------------------------------------------------
// Pieces and lines
// ---------------------------------------------------------------------------------------------
/// The pieces between the characters of a class. There is one piece more than separators.
pub open spec fn pieces(s: Seq<char>, class: Class) -> Seq<Seq<char>>
    decreases s.len(),
{
    if s.len() == 0 {
        seq![Seq::<char>::empty()]
    } else {
        let before = pieces(s.drop_last(), class);
        if class.has(s.last()) {
            before.push(Seq::<char>::empty())
        } else {
            before.drop_last().push(before.last().push(s.last()))
        }
    }
}

/// There is always a last piece.
pub proof fn lemma_pieces_nonempty(s: Seq<char>, class: Class)
    ensures
        pieces(s, class).len() >= 1,
    decreases s.len(),
{
    if s.len() > 0 {
        lemma_pieces_nonempty(s.drop_last(), class);
    }
}

/// No piece holds a separator.
pub proof fn lemma_pieces_free_of_separators(s: Seq<char>, class: Class)
    ensures
        forall|i: int, j: int|
            0 <= i < pieces(s, class).len() && 0 <= j < pieces(s, class)[i].len() ==> !class.has(
                #[trigger] pieces(s, class)[i][j],
            ),
    decreases s.len(),
{
    if s.len() > 0 {
        lemma_pieces_free_of_separators(s.drop_last(), class);
        lemma_pieces_nonempty(s.drop_last(), class);
    }
}

/// The pieces of the text between the characters of a class.
pub fn split(s: &str, class: &Class) -> (r: Vec<String>)
    ensures
        views(r@) == pieces(s@, *class),
        r.len() >= 1,
{
    let cs = chars_of(s);
    let mut out: Vec<String> = Vec::new();
    let mut piece = String::new();
    let mut i: usize = 0;
    assert(views(out@).push(piece@) =~= pieces(cs@.take(0), *class));
    while i < cs.len()
        invariant
            i <= cs.len(),
            views(out@).push(piece@) == pieces(cs@.take(i as int), *class),
        decreases cs.len() - i,
    {
        let c: char = cs[i];
        let ghost before = views(out@).push(piece@);
        proof {
            assert(cs@.take(i + 1).drop_last() =~= cs@.take(i as int));
            assert(before.drop_last() =~= views(out@));
        }
        if class.holds(c) {
            let ghost kept = out@;
            let ghost done = piece@;
            out.push(piece);
            proof {
                assert(views(out@) =~= views(kept).push(done));
            }
            piece = String::new();
        } else {
            piece.push(c);
        }
        i = i + 1;
    }
    assert(cs@.take(i as int) =~= s@);
    let ghost kept = out@;
    let ghost done = piece@;
    out.push(piece);
    assert(views(out@) =~= views(kept).push(done));
    out
}

/// A text without one carriage return at its end.
pub open spec fn without_return(s: Seq<char>) -> Seq<char> {
    if s.len() > 0 && s.last() == '\r' {
        s.drop_last()
    } else {
        s
    }
}

/// The lines of a text. A line ends with a line feed, which may follow a carriage return; what
/// follows the last line feed is a line only if it is not empty.
pub open spec fn lines_of(s: Seq<char>) -> Seq<Seq<char>> {
    let all = pieces(s, Class::Is('\n'));
    let ended = all.drop_last().map_values(|l: Seq<char>| without_return(l));
    if all.last().len() == 0 {
        ended
    } else {
        ended.push(all.last())
    }
}

/// The lines of the text.
pub fn lines(s: &str) -> (r: Vec<String>)
    ensures
        views(r@) == lines_of(s@),
{
    let all = split(s, &Class::Is('\n'));
    let ghost pieces_view = views(all@);
    let n: usize = all.len() - 1;
    let mut out: Vec<String> = Vec::new();
    let mut i: usize = 0;
    let ghost ended = pieces_view.drop_last().map_values(|l: Seq<char>| without_return(l));
    while i < n
        invariant
            n + 1 == all.len(),
            i <= n,
            pieces_view == views(all@),
            ended == pieces_view.drop_last().map_values(|l: Seq<char>| without_return(l)),
            views(out@) =~= ended.take(i as int),
        decreases n - i,
    {
        let cs = chars_of(all[i].as_str());
        let ghost kept = out@;
        let line = if cs.len() > 0 && cs[cs.len() - 1] == '\r' {
            assert(cs@.subrange(0, cs@.len() - 1) =~= cs@.drop_last());
            text_between(&cs, 0, cs.len() - 1)
        } else {
            assert(cs@.subrange(0, cs@.len() as int) =~= cs@);
            text_between(&cs, 0, cs.len())
        };
        proof {
            assert(pieces_view[i as int] == cs@);
            assert(ended[i as int] == line@);
        }
        out.push(line);
        i = i + 1;
        assert(views(out@) =~= views(kept).push(line@));
    }
    assert(ended.take(i as int) =~= ended);
    if !all[n].as_str().is_empty() {
        let ghost kept = out@;
        out.push(all[n].clone());
        assert(views(out@) =~= views(kept).push(all@[n as int]@));
        assert(pieces_view.last() == all@[n as int]@);
    } else {
        assert(pieces_view.last() == all@[n as int]@);
    }
    out
}

/// The pieces that are not empty, in order.
pub open spec fn nonempty(list: Seq<Seq<char>>) -> Seq<Seq<char>> {
    list.filter(|p: Seq<char>| p.len() > 0)
}

/// The words of a text: its pieces between the characters of a class, without the empty ones.
pub fn words(s: &str, class: &Class) -> (r: Vec<String>)
    ensures
        views(r@) == nonempty(pieces(s@, *class)),
{
    let all = split(s, class);
    let mut out: Vec<String> = Vec::new();
    let ghost kept_if = |p: Seq<char>| p.len() > 0;
    let mut i: usize = 0;
    assert(views(out@) =~= views(all@).take(0).filter(kept_if)) by {
        reveal(Seq::filter);
    }
    while i < all.len()
        invariant
            i <= all.len(),
            kept_if == (|p: Seq<char>| p.len() > 0),
            views(out@) == views(all@).take(i as int).filter(kept_if),
        decreases all.len() - i,
    {
        proof {
            let v = views(all@);
            assert(v.take(i + 1) =~= v.take(i as int).push(v[i as int]));
            v.take(i as int).lemma_filter_push(v[i as int], kept_if);
        }
        if !all[i].as_str().is_empty() {
            let ghost before = out@;
            out.push(all[i].clone());
            assert(views(out@) =~= views(before).push(all@[i as int]@));
        }
        i = i + 1;
    }
    assert(views(all@).take(i as int) =~= views(all@));
    out
}

/// A list of texts with a separator between neighbours.
pub open spec fn joined(list: Seq<Seq<char>>, sep: Seq<char>) -> Seq<char>
    decreases list.len(),
{
    if list.len() == 0 {
        Seq::<char>::empty()
    } else if list.len() == 1 {
        list[0]
    } else {
        joined(list.drop_last(), sep) + sep + list.last()
    }
}

/// The texts of a list, with a separator between neighbours.
pub fn join(list: &Vec<String>, sep: &str) -> (r: String)
    ensures
        r@ == joined(views(list@), sep@),
{
    let mut out = String::new();
    let mut i: usize = 0;
    let ghost v = views(list@);
    while i < list.len()
        invariant
            i <= list.len(),
            v == views(list@),
            out@ =~= joined(v.take(i as int), sep@),
        decreases list.len() - i,
    {
        proof {
            assert(v.take(i + 1).drop_last() =~= v.take(i as int));
        }
        if i > 0 {
            out.append(sep);
        }
        out.append(list[i].as_str());
        i = i + 1;
    }
    assert(v.take(i as int) =~= v);
    out
}

// ---------------------------------------------------------------------------------------------
// Changing characters
// ---------------------------------------------------------------------------------------------
/// A text in which every occurrence of a character is replaced by another text.
pub open spec fn replaced(s: Seq<char>, c: char, with: Seq<char>) -> Seq<char>
    decreases s.len(),
{
    if s.len() == 0 {
        Seq::<char>::empty()
    } else if s.last() == c {
        replaced(s.drop_last(), c, with) + with
    } else {
        replaced(s.drop_last(), c, with).push(s.last())
    }
}

/// The text with every occurrence of a character replaced by another text.
pub fn replace_char(s: &str, c: char, with: &str) -> (r: String)
    ensures
        r@ == replaced(s@, c, with@),
{
    let cs = chars_of(s);
    let mut out = String::new();
    let mut i: usize = 0;
    while i < cs.len()
        invariant
            i <= cs.len(),
            out@ =~= replaced(cs@.take(i as int), c, with@),
        decreases cs.len() - i,
    {
        proof {
            assert(cs@.take(i + 1).drop_last() =~= cs@.take(i as int));
        }
        if cs[i] == c {
            out.append(with);
        } else {
            out.push(cs[i]);
        }
        i = i + 1;
    }
    assert(cs@.take(i as int) =~= s@);
    out
}

/// A replaced text concatenates.
pub proof fn lemma_replaced_concat(a: Seq<char>, b: Seq<char>, c: char, with: Seq<char>)
    ensures
        replaced(a + b, c, with) == replaced(a, c, with) + replaced(b, c, with),
    decreases b.len(),
{
    if b.len() == 0 {
        assert(a + b =~= a);
        assert(replaced(a, c, with) + replaced(b, c, with) =~= replaced(a, c, with));
    } else {
        assert((a + b).drop_last() =~= a + b.drop_last());
        lemma_replaced_concat(a, b.drop_last(), c, with);
        if b.last() == c {
            assert(replaced(a, c, with) + (replaced(b.drop_last(), c, with) + with) =~= (replaced(
                a,
                c,
                with,
            ) + replaced(b.drop_last(), c, with)) + with);
        } else {
            assert(replaced(a, c, with) + replaced(b.drop_last(), c, with).push(b.last()) =~= (
            replaced(a, c, with) + replaced(b.drop_last(), c, with)).push(b.last()));
        }
    }
}

/// After a replacement by a text without the character, the character is gone.
pub proof fn lemma_replaced_free(s: Seq<char>, c: char, with: Seq<char>)
    requires
        !with.contains(c),
    ensures
        !replaced(s, c, with).contains(c),
    decreases s.len(),
{
    if s.len() > 0 {
        lemma_replaced_free(s.drop_last(), c, with);
        let before = replaced(s.drop_last(), c, with);
        if s.last() == c {
            assert forall|i: int| 0 <= i < (before + with).len() implies (before + with)[i] != c by {
                if i < before.len() {
                    assert(before.contains(before[i]));
                } else {
                    assert(with.contains(with[i - before.len()]));
                }
            }
        } else {
            assert forall|i: int| 0 <= i < before.push(s.last()).len() implies before.push(
                s.last(),
            )[i] != c by {
                if i < before.len() {
                    assert(before.contains(before[i]));
                }
            }
        }
    }
}

/// A replacement brings in no character that neither the text nor the replacement holds.
pub proof fn lemma_replaced_keeps_out(s: Seq<char>, c: char, with: Seq<char>, d: char)
    requires
        !s.contains(d),
        !with.contains(d),
    ensures
        !replaced(s, c, with).contains(d),
    decreases s.len(),
{
    if s.len() > 0 {
        assert forall|i: int| 0 <= i < s.drop_last().len() implies s.drop_last()[i] != d by {
            assert(s.contains(s[i]));
        }
        lemma_replaced_keeps_out(s.drop_last(), c, with, d);
        let before = replaced(s.drop_last(), c, with);
        assert(s.contains(s.last()));
        if s.last() == c {
            assert forall|i: int| 0 <= i < (before + with).len() implies (before + with)[i] != d by {
                if i < before.len() {
                    assert(before.contains(before[i]));
                } else {
                    assert(with.contains(with[i - before.len()]));
                }
            }
        } else {
            assert forall|i: int| 0 <= i < before.push(s.last()).len() implies before.push(
                s.last(),
            )[i] != d by {
                if i < before.len() {
                    assert(before.contains(before[i]));
                }
            }
        }
    }
}

/// The lower-case form of an ASCII capital; any other character stands for itself.
pub open spec fn lower(c: char) -> char {
    if 'A' <= c && c <= 'Z' {
        (c as u8 + 32) as char
    } else {
        c
    }
}

/// A text with its ASCII capitals in lower case.
pub open spec fn lowered(s: Seq<char>) -> Seq<char> {
    s.map_values(|c: char| lower(c))
}

/// The text with its ASCII capitals in lower case.
pub fn to_lower(s: &str) -> (r: String)
    ensures
        r@ == lowered(s@),
{
    let cs = chars_of(s);
    let mut out = String::new();
    let mut i: usize = 0;
    while i < cs.len()
        invariant
            i <= cs.len(),
            out@ =~= lowered(cs@.take(i as int)),
        decreases cs.len() - i,
    {
        let c: char = cs[i];
        let l: char = if 'A' <= c && c <= 'Z' {
            let b: u8 = c as u8;
            (b + 32) as char
        } else {
            c
        };
        assert(l == lower(c));
        out.push(l);
        i = i + 1;
    }
    assert(cs@.take(i as int) =~= s@);
    out
}

// ---------------------------------------------------------------------------------------------
// Numbers
// ---------------------------------------------------------------------------------------------
/// The character of a decimal digit.
pub open spec fn digit(d: int) -> char {
    (d + 48) as char
}

/// The decimal digits of a number, without leading zeros.
pub open spec fn decimal(n: nat) -> Seq<char>
    decreases n,
{
    if n < 10 {
        seq![digit(n as int)]
    } else {
        decimal(n / 10).push(digit((n % 10) as int))
    }
}

/// The decimal digits of a whole number, with a minus in front of a negative one.
pub open spec fn signed_decimal(n: int) -> Seq<char> {
    if n < 0 {
        seq!['-'] + decimal((-n) as nat)
    } else {
        decimal(n as nat)
    }
}

/// The number in decimal digits.
pub fn number(n: u128) -> (r: String)
    ensures
        r@ == decimal(n as nat),
    decreases n,
{
    let d: u8 = (n % 10) as u8;
    let c: char = (d + 48) as char;
    assert(c == digit((n % 10) as int));
    let mut out = if n < 10 {
        String::new()
    } else {
        number(n / 10)
    };
    out.push(c);
    assert(n < 10 ==> out@ =~= seq![digit(n as int)]);
    out
}

/// The whole number in decimal digits, with a minus in front of a negative one.
pub fn signed_number(n: i64) -> (r: String)
    ensures
        r@ == signed_decimal(n as int),
{
    if n < 0 {
        let mut out = String::new();
        out.push('-');
        let m: i128 = -(n as i128);
        let digits = number(m as u128);
        out.append(digits.as_str());
        assert(out@ =~= seq!['-'] + decimal((-n) as nat));
        out
    } else {
        number(n as u128)
    }
}

/// Different numbers have different numerals.
pub proof fn lemma_decimal_tells_apart(a: nat, b: nat)
    ensures
        decimal(a) == decimal(b) ==> a == b,
    decreases a,
{
    if decimal(a) == decimal(b) {
        lemma_decimal_digits(a / 10);
        lemma_decimal_digits(b / 10);
        assert(decimal(a).last() == digit((a % 10) as int));
        assert(decimal(b).last() == digit((b % 10) as int));
        if a >= 10 && b >= 10 {
            assert(decimal(a).drop_last() =~= decimal(a / 10));
            assert(decimal(b).drop_last() =~= decimal(b / 10));
            lemma_decimal_tells_apart(a / 10, b / 10);
        }
    }
}

/// Every decimal numeral holds digits only, and at least one.
pub proof fn lemma_decimal_digits(n: nat)
    ensures
        decimal(n).len() >= 1,
        forall|i: int| 0 <= i < decimal(n).len() ==> '0' <= #[trigger] decimal(n)[i] <= '9',
    decreases n,
{
    if n >= 10 {
        lemma_decimal_digits(n / 10);
    }
}

/// The value of a decimal numeral, if every character is a digit.
pub open spec fn decimal_value(s: Seq<char>) -> Option<nat>
    decreases s.len(),
{
    if s.len() == 0 {
        Some(0)
    } else {
        match decimal_value(s.drop_last()) {
            Some(n) => if '0' <= s.last() <= '9' {
                Some(10 * n + (s.last() as nat - '0' as nat) as nat)
            } else {
                None
            },
            None => None,
        }
    }
}

/// The whole number that a text stands for: digits, with a sign in front or none, within the range
/// of a signed word of 64 bits.
pub open spec fn whole_number(s: Seq<char>) -> Option<i64> {
    let negative = s.len() > 0 && s[0] == '-';
    let digits = if s.len() > 0 && (s[0] == '-' || s[0] == '+') {
        s.skip(1)
    } else {
        s
    };
    match decimal_value(digits) {
        Some(n) => if digits.len() == 0 {
            None
        } else if negative && n <= -(i64::MIN as int) {
            Some((-(n as int)) as i64)
        } else if !negative && n <= i64::MAX {
            Some(n as i64)
        } else {
            None
        },
        None => None,
    }
}

/// A larger numeral has a larger value.
proof fn lemma_decimal_value_grows(s: Seq<char>, k: int)
    requires
        0 <= k <= s.len(),
    ensures
        decimal_value(s.take(k)) is None ==> decimal_value(s) is None,
        decimal_value(s) is Some ==> decimal_value(s.take(k)) is Some && decimal_value(
            s.take(k),
        )->0 <= decimal_value(s)->0,
    decreases s.len(),
{
    if k == s.len() {
        assert(s.take(k) =~= s);
    } else {
        assert(s.drop_last().take(k) =~= s.take(k));
        lemma_decimal_value_grows(s.drop_last(), k);
    }
}

/// The whole number that a text stands for.
pub fn parse_whole_number(s: &str) -> (r: Option<i64>)
    ensures
        r == whole_number(s@),
{
    let cs = chars_of(s);
    let negative = cs.len() > 0 && cs[0] == '-';
    let from: usize = if cs.len() > 0 && (cs[0] == '-' || cs[0] == '+') {
        1
    } else {
        0
    };
    let ghost digits = s@.skip(from as int);
    proof {
        if from == 0 {
            assert(digits =~= s@);
        }
    }
    if cs.len() == from {
        return None;
    }
    let mut n: u128 = 0;
    let mut i: usize = from;
    assert(digits.take(0) =~= Seq::empty());
    while i < cs.len()
        invariant
            from <= i <= cs.len(),
            cs@ == s@,
            cs.len() > from,
            from == (if s@.len() > 0 && (s@[0] == '-' || s@[0] == '+') {
                1usize
            } else {
                0usize
            }),
            digits == s@.skip(from as int),
            from == 0 ==> digits == s@,
            decimal_value(digits.take(i - from)) == Some(n as nat),
            n <= 9_223_372_036_854_775_808,
        decreases cs.len() - i,
    {
        let c: char = cs[i];
        proof {
            assert(digits.take(i + 1 - from).drop_last() =~= digits.take(i - from));
            assert(digits.take(i + 1 - from).last() == c);
        }
        if '0' <= c && c <= '9' {
            let d: u32 = c as u32 - 48;
            n = 10 * n + d as u128;
            if n > 9_223_372_036_854_775_808 {
                proof {
                    lemma_decimal_value_grows(digits, i + 1 - from);
                }
                return None;
            }
        } else {
            proof {
                lemma_decimal_value_grows(digits, i + 1 - from);
            }
            return None;
        }
        i = i + 1;
    }
    assert(digits.take(i - from) =~= digits);
    if negative {
        let m: i128 = -(n as i128);
        Some(m as i64)
    } else if n <= 9_223_372_036_854_775_807 {
        Some(n as i64)
    } else {
        None
    }
}

/// Every text of a list stands in the list that is joined.
pub proof fn lemma_joined_holds(list: Seq<Seq<char>>, sep: Seq<char>, i: int)
    requires
        0 <= i < list.len(),
    ensures
        holds_text(joined(list, sep), list[i]),
    decreases list.len(),
{
    let front = list.drop_last();
    let none = Seq::<char>::empty();
    if list.len() == 1 {
        assert(joined(list, sep).subrange(0, list[0].len() as int) =~= list[0]);
        lemma_holds_at(joined(list, sep), list[0], 0);
    } else if i < front.len() {
        lemma_joined_holds(front, sep, i);
        lemma_holds_inside(none, joined(front, sep), sep + list.last(), list[i]);
        assert(none + joined(front, sep) + (sep + list.last()) =~= joined(list, sep));
    } else {
        let at = joined(list, sep).len() - list.last().len();
        assert(joined(list, sep).subrange(at as int, at + list.last().len()) =~= list.last());
        lemma_holds_at(joined(list, sep), list[i], at as int);
    }
}

// ---------------------------------------------------------------------------------------------
// Laws
// ---------------------------------------------------------------------------------------------
/// Trimming takes white space away at both ends and nothing else: what is left stands in the text
/// between two stretches of white space, and neither begins nor ends with any.
pub proof fn law_trimming_takes_white_space_only(s: Seq<char>) -> (ends: (int, int))
    ensures
        0 <= ends.0 <= ends.1 <= s.len(),
        trimmed(s) == s.subrange(ends.0, ends.1),
        forall|i: int| 0 <= i < ends.0 ==> is_space(#[trigger] s[i]),
        forall|i: int| ends.1 <= i < s.len() ==> is_space(#[trigger] s[i]),
        trimmed(s).len() > 0 ==> !is_space(trimmed(s)[0]) && !is_space(trimmed(s).last()),
{
    let a = lemma_front_is_skipped(s, Class::Space);
    let front = s.skip(a);
    let b = lemma_back_is_skipped(front, Class::Space);
    assert(trimmed(s) =~= s.subrange(a, a + b));
    assert forall|i: int| a + b <= i < s.len() implies is_space(#[trigger] s[i]) by {
        assert(is_space(front[i - a]));
    }
    if trimmed(s).len() > 0 {
        assert(trimmed(s)[0] == front[0]);
    }
    (a, a + b)
}

/// What is skipped at the front is all of the class, and what follows is not.
pub proof fn lemma_front_is_skipped(s: Seq<char>, class: Class) -> (n: int)
    ensures
        0 <= n <= s.len(),
        skip_front(s, class) == s.skip(n),
        forall|i: int| 0 <= i < n ==> class.has(#[trigger] s[i]),
        n < s.len() ==> !class.has(s[n]),
    decreases s.len(),
{
    if s.len() > 0 && class.has(s[0]) {
        let m = lemma_front_is_skipped(s.drop_first(), class);
        assert(s.drop_first().skip(m) =~= s.skip(m + 1));
        assert forall|i: int| 0 <= i < m + 1 implies class.has(#[trigger] s[i]) by {
            if i > 0 {
                assert(class.has(s.drop_first()[i - 1]));
            }
        }
        m + 1
    } else {
        assert(s.skip(0) =~= s);
        0
    }
}

/// What is skipped at the end is all of the class, and what comes before is not.
pub proof fn lemma_back_is_skipped(s: Seq<char>, class: Class) -> (n: int)
    ensures
        0 <= n <= s.len(),
        skip_back(s, class) == s.take(n),
        forall|i: int| n <= i < s.len() ==> class.has(#[trigger] s[i]),
        n > 0 ==> !class.has(s[n - 1]),
    decreases s.len(),
{
    if s.len() > 0 && class.has(s.last()) {
        let m = lemma_back_is_skipped(s.drop_last(), class);
        assert(s.drop_last().take(m) =~= s.take(m));
        assert forall|i: int| m <= i < s.len() implies class.has(#[trigger] s[i]) by {
            if i < s.len() - 1 {
                assert(class.has(s.drop_last()[i]));
            }
        }
        if m > 0 {
            assert(s.drop_last()[m - 1] == s[m - 1]);
        }
        m
    } else {
        assert(s.take(s.len() as int) =~= s);
        s.len() as int
    }
}

/// A separator parts a text: the pieces before it are those of what stands before it, and the pieces
/// behind it those of what stands behind it.
pub proof fn law_a_separator_parts_a_text(a: Seq<char>, c: char, b: Seq<char>, class: Class)
    requires
        class.has(c),
    ensures
        pieces(a.push(c) + b, class) == pieces(a, class) + pieces(b, class),
    decreases b.len(),
{
    let s = a.push(c) + b;
    lemma_pieces_nonempty(a, class);
    if b.len() == 0 {
        assert(s =~= a.push(c));
        assert(s.drop_last() =~= a);
        assert(pieces(s, class) =~= pieces(a, class) + pieces(b, class));
    } else {
        law_a_separator_parts_a_text(a, c, b.drop_last(), class);
        lemma_pieces_nonempty(b.drop_last(), class);
        assert(s.drop_last() =~= a.push(c) + b.drop_last());
        let before = pieces(a, class) + pieces(b.drop_last(), class);
        assert(before.drop_last() =~= pieces(a, class) + pieces(b.drop_last(), class).drop_last());
        assert(pieces(s, class) =~= pieces(a, class) + pieces(b, class));
    }
}

/// A text without separators is one piece.
pub proof fn law_one_piece(s: Seq<char>, class: Class)
    requires
        forall|i: int| 0 <= i < s.len() ==> !class.has(#[trigger] s[i]),
    ensures
        pieces(s, class) == seq![s],
    decreases s.len(),
{
    if s.len() > 0 {
        assert forall|i: int| 0 <= i < s.drop_last().len() implies !class.has(
            #[trigger] s.drop_last()[i],
        ) by {
            assert(!class.has(s[i]));
        }
        law_one_piece(s.drop_last(), class);
        assert(!class.has(s[s.len() - 1]));
        assert(s.drop_last().push(s.last()) =~= s);
        assert(pieces(s, class) =~= seq![s]);
    } else {
        assert(s =~= Seq::empty());
    }
}

/// Texts that are joined with a character which none of them holds are found again by parting.
pub proof fn law_joining_is_undone_by_parting(list: Seq<Seq<char>>, c: char)
    requires
        list.len() > 0,
        forall|i: int| 0 <= i < list.len() ==> !(#[trigger] list[i]).contains(c),
    ensures
        pieces(joined(list, seq![c]), Class::Is(c)) == list,
    decreases list.len(),
{
    let last = list.last();
    assert(!list[list.len() - 1].contains(c));
    assert forall|i: int| 0 <= i < last.len() implies !Class::Is(c).has(#[trigger] last[i]) by {
        assert(last.contains(last[i]));
    }
    law_one_piece(last, Class::Is(c));
    if list.len() == 1 {
        assert(list =~= seq![last]);
    } else {
        let front = list.drop_last();
        assert forall|i: int| 0 <= i < front.len() implies !(#[trigger] front[i]).contains(c) by {
            assert(!list[i].contains(c));
        }
        law_joining_is_undone_by_parting(front, c);
        let head = joined(front, seq![c]);
        assert(joined(list, seq![c]) =~= head.push(c) + last);
        law_a_separator_parts_a_text(head, c, last, Class::Is(c));
        assert(front + seq![last] =~= list);
    }
}

/// A cut drops the pattern and nothing else: what stands before it, the pattern, and what stands
/// behind it make up the text again; and the pattern does not stand any earlier.
pub proof fn law_a_cut_drops_the_pattern_only(s: Seq<char>, pattern: Seq<char>)
    ensures
        cut_first(s, pattern) is Some <==> holds_text(s, pattern),
        cut_first(s, pattern) matches Some(cut) ==> s == cut.0 + pattern + cut.1 && first_at(
            s,
            pattern,
            cut.0.len() as int,
        ),
{
    if holds_text(s, pattern) {
        let any = choose|i: int| occurs_at(s, pattern, i);
        let i = lemma_first_occurrence(s, pattern, any);
        lemma_cut_first(s, pattern, i);
        assert(s =~= s.take(i) + pattern + s.skip(i + pattern.len())) by {
            assert(s.subrange(i, i + pattern.len()) == pattern);
            assert(s =~= s.take(i) + s.subrange(i, i + pattern.len()) + s.skip(i + pattern.len()));
        }
    }
}

proof fn lemma_first_occurrence(s: Seq<char>, pattern: Seq<char>, any: int) -> (i: int)
    requires
        occurs_at(s, pattern, any),
    ensures
        first_at(s, pattern, i),
    decreases any,
{
    if exists|k: int| 0 <= k < any && occurs_at(s, pattern, k) {
        let k = choose|k: int| 0 <= k < any && occurs_at(s, pattern, k);
        lemma_first_occurrence(s, pattern, k)
    } else {
        any
    }
}

/// A line ends at its line feed, with or without a carriage return before it, and the lines behind it
/// are those of what follows.
pub proof fn law_a_line_ends_at_its_line_feed(a: Seq<char>, b: Seq<char>)
    requires
        !a.contains('\n'),
    ensures
        lines_of(a.push('\n') + b) == seq![
            if a.len() > 0 && a.last() == '\r' {
                a.drop_last()
            } else {
                a
            },
        ] + lines_of(b),
{
    let class = Class::Is('\n');
    assert forall|i: int| 0 <= i < a.len() implies !class.has(#[trigger] a[i]) by {
        assert(a.contains(a[i]));
    }
    law_one_piece(a, class);
    law_a_separator_parts_a_text(a, '\n', b, class);
    lemma_pieces_nonempty(b, class);
    let all = pieces(a.push('\n') + b, class);
    let rest = pieces(b, class);
    let trim = |l: Seq<char>| without_return(l);
    assert(all =~= seq![a] + rest);
    assert(all.drop_last() =~= seq![a] + rest.drop_last());
    assert(all.drop_last().map_values(trim) =~= seq![without_return(a)]
        + rest.drop_last().map_values(trim));
    assert(lines_of(a.push('\n') + b) =~= seq![without_return(a)] + lines_of(b));
}

/// Replacing a character changes that character alone.
pub proof fn law_a_replacement_changes_one_character(c: char, with: Seq<char>, d: char)
    ensures
        replaced(seq![c], c, with) == with,
        d != c ==> replaced(seq![d], c, with) == seq![d],
        replaced(Seq::empty(), c, with).len() == 0,
{
    reveal_with_fuel(replaced, 2);
    assert(seq![c].drop_last() =~= Seq::<char>::empty());
    assert(seq![d].drop_last() =~= Seq::<char>::empty());
    assert(Seq::<char>::empty() + with =~= with);
    assert(Seq::<char>::empty().push(d) =~= seq![d]);
}

/// Lower case moves the capitals of ASCII to the small letters at the same place of the alphabet, and
/// leaves every other character where and what it was.
pub proof fn law_lower_case_moves_capitals_only(s: Seq<char>, i: int)
    requires
        0 <= i < s.len(),
    ensures
        lowered(s).len() == s.len(),
        'A' <= s[i] <= 'Z' ==> lowered(s)[i] as int == s[i] as int + ('a' as int - 'A' as int),
        !('A' <= s[i] <= 'Z') ==> lowered(s)[i] == s[i],
{
}

/// A numeral is read as the number that it was written for.
pub proof fn law_numerals_are_read_back(n: nat)
    ensures
        decimal_value(decimal(n)) == Some(n),
    decreases n,
{
    if n < 10 {
        reveal_with_fuel(decimal_value, 2);
        assert(decimal(n).drop_last() =~= Seq::<char>::empty());
    } else {
        law_numerals_are_read_back(n / 10);
        assert(decimal(n).drop_last() =~= decimal(n / 10));
    }
}

/// A whole number is read as the number that it was written for, with its sign.
pub proof fn law_whole_numbers_are_read_back(n: i64)
    ensures
        whole_number(signed_decimal(n as int)) == Some(n),
        n >= 0 ==> whole_number(seq!['+'] + decimal(n as nat)) == Some(n),
        whole_number(Seq::empty()) is None,
{
    let size = if n < 0 {
        (-n) as nat
    } else {
        n as nat
    };
    law_numerals_are_read_back(size);
    lemma_decimal_digits(size);
    let d = decimal(size);
    assert((seq!['-'] + d).skip(1) =~= d);
    assert((seq!['+'] + d).skip(1) =~= d);
    assert('0' <= d[0] <= '9');
}

/// A text that holds anything but digits behind its sign is no number.
pub proof fn law_only_digits_are_numbers(s: Seq<char>, i: int)
    requires
        1 <= i < s.len(),
        !('0' <= s[i] <= '9'),
    ensures
        whole_number(s) is None,
{
    lemma_no_digit(s, i);
    lemma_no_digit(s.skip(1), i - 1);
}

proof fn lemma_no_digit(s: Seq<char>, i: int)
    requires
        0 <= i < s.len(),
        !('0' <= s[i] <= '9'),
    ensures
        decimal_value(s) is None,
    decreases s.len(),
{
    if i < s.len() - 1 {
        lemma_no_digit(s.drop_last(), i);
    }
}


/// Blanks, tabs and the ends of lines are white space; no letter, digit or sign of ASCII is.
pub proof fn law_white_space_is_known(c: char)
    ensures
        c == ' ' || c == '\t' || c == '\n' || c == '\r' || c == '\u{a0}' || c == '\u{3000}' ==> is_space(
            c,
        ),
        '!' <= c <= '~' ==> !is_space(c),
        Class::Is(c).has(c),
        Class::Space.has(c) <==> is_space(c),
        Class::Blank.has(c) <==> c == ' ' || c == '\t' || c == '\n' || c == '\r',
{
}

/// What follows a prefix is the rest of the text, and a text without the prefix has none.
pub proof fn law_a_prefix_is_taken_away(prefix: Seq<char>, rest: Seq<char>, s: Seq<char>)
    ensures
        after_prefix(prefix + rest, prefix) == Some(rest),
        after_prefix(s, prefix) matches Some(r) ==> s == prefix + r,
{
    assert((prefix + rest).take(prefix.len() as int) =~= prefix);
    assert((prefix + rest).skip(prefix.len() as int) =~= rest);
    if prefix.is_prefix_of(s) {
        assert(s =~= prefix + s.skip(prefix.len() as int));
    }
}

} // verus!
