//! Character-level text helpers: line splitting, whitespace trimming,
//! prefix/suffix/infix tests, all stated over `Seq<char>`.
use vstd::prelude::*;

verus! {

/// Unicode `White_Space`, the set that `char::is_whitespace` tests.
pub open spec fn is_white(c: char) -> bool {
    let n = c as u32;
    (0x09 <= n && n <= 0x0D) || n == 0x20 || n == 0x85 || n == 0xA0 || n == 0x1680 || (0x2000
        <= n && n <= 0x200A) || n == 0x2028 || n == 0x2029 || n == 0x202F || n == 0x205F || n
        == 0x3000
}

/// The text is empty once surrounding whitespace is trimmed.
pub open spec fn is_blank(s: Seq<char>) -> bool {
    forall|i: int| 0 <= i < s.len() ==> is_white(#[trigger] s[i])
}

pub open spec fn has_prefix(s: Seq<char>, p: Seq<char>) -> bool {
    p.len() <= s.len() && s.subrange(0, p.len() as int) == p
}

pub open spec fn has_suffix(s: Seq<char>, p: Seq<char>) -> bool {
    p.len() <= s.len() && s.subrange(s.len() - p.len(), s.len() as int) == p
}

pub open spec fn occurs_at(s: Seq<char>, p: Seq<char>, i: int) -> bool {
    0 <= i && i + p.len() <= s.len() && s.subrange(i, i + p.len()) == p
}

pub open spec fn has_infix(s: Seq<char>, p: Seq<char>) -> bool {
    exists|i: int| occurs_at(s, p, i)
}

pub open spec fn trim_start(s: Seq<char>) -> Seq<char>
    decreases s.len(),
{
    if s.len() > 0 && is_white(s[0]) {
        trim_start(s.drop_first())
    } else {
        s
    }
}

pub open spec fn trim_end(s: Seq<char>) -> Seq<char>
    decreases s.len(),
{
    if s.len() > 0 && is_white(s.last()) {
        trim_end(s.drop_last())
    } else {
        s
    }
}

/// Whitespace removed from both ends, as `str::trim` does.
pub open spec fn trim(s: Seq<char>) -> Seq<char> {
    trim_end(trim_start(s))
}

/// Splitting on `'\n'`: the lines finished so far, and the text after the
/// last newline.
pub open spec fn split_state(s: Seq<char>) -> (Seq<Seq<char>>, Seq<char>)
    decreases s.len(),
{
    if s.len() == 0 {
        (Seq::empty(), Seq::empty())
    } else {
        let (done, cur) = split_state(s.drop_last());
        if s.last() == '\n' {
            (done.push(cur), Seq::empty())
        } else {
            (done, cur.push(s.last()))
        }
    }
}

/// The lines of a text, each without its `'\n'`; a final newline ends the
/// last line rather than starting an empty one.
pub open spec fn lines_of(s: Seq<char>) -> Seq<Seq<char>> {
    let (done, cur) = split_state(s);
    if cur.len() == 0 {
        done
    } else {
        done.push(cur)
    }
}

pub open spec fn strip_cr(l: Seq<char>) -> Seq<char> {
    if l.len() > 0 && l.last() == '\r' {
        l.drop_last()
    } else {
        l
    }
}

/// The lines as `str::lines` yields them: a `"\r\n"` ending counts as one
/// line ending.
pub open spec fn std_lines(s: Seq<char>) -> Seq<Seq<char>> {
    let (done, cur) = split_state(s);
    let ended = done.map_values(|l: Seq<char>| strip_cr(l));
    if cur.len() == 0 {
        ended
    } else {
        ended.push(cur)
    }
}

/// Each line followed by `'\n'`, concatenated.
pub open spec fn join_lines(ls: Seq<Seq<char>>) -> Seq<char>
    decreases ls.len(),
{
    if ls.len() == 0 {
        Seq::empty()
    } else {
        join_lines(ls.drop_last()) + ls.last().push('\n')
    }
}

pub open spec fn no_newline(l: Seq<char>) -> bool {
    forall|i: int| 0 <= i < l.len() ==> #[trigger] l[i] != '\n'
}

pub open spec fn strings_view(v: Seq<String>) -> Seq<Seq<char>> {
    v.map_values(|s: String| s@)
}

/// Relies on `str::chars`: the characters of the text, in order.
#[verifier::external_body]
pub fn chars_of(s: &str) -> (r: Vec<char>)
    ensures
        r@ == s@,
{
    s.chars().collect()
}

/// Relies on `String::push`: appends one character.
#[verifier::external_body]
pub fn push_char(s: &mut String, c: char)
    ensures
        final(s)@ == old(s)@.push(c),
{
    s.push(c)
}

/// `char::is_whitespace`.
pub fn is_whitespace(c: char) -> (r: bool)
    ensures
        r == is_white(c),
{
    let n = c as u32;
    (0x09 <= n && n <= 0x0D) || n == 0x20 || n == 0x85 || n == 0xA0 || n == 0x1680 || (0x2000
        <= n && n <= 0x200A) || n == 0x2028 || n == 0x2029 || n == 0x202F || n == 0x205F || n
        == 0x3000
}

/// True when the text holds nothing but whitespace.
pub fn blank(s: &str) -> (r: bool)
    ensures
        r == is_blank(s@),
{
    let cs = chars_of(s);
    let mut i: usize = 0;
    while i < cs.len()
        invariant
            cs@ == s@,
            i <= cs.len(),
            forall|j: int| 0 <= j < i ==> is_white(#[trigger] s@[j]),
        decreases cs.len() - i,
    {
        if !is_whitespace(cs[i]) {
            return false;
        }
        i = i + 1;
    }
    true
}

/// A string holding the characters `cs[from..to]`.
pub fn string_of_range(cs: &Vec<char>, from: usize, to: usize) -> (r: String)
    requires
        from <= to <= cs@.len(),
    ensures
        r@ == cs@.subrange(from as int, to as int),
{
    let mut r = String::new();
    let mut i = from;
    while i < to
        invariant
            from <= i <= to <= cs@.len(),
            r@ == cs@.subrange(from as int, i as int),
        decreases to - i,
    {
        push_char(&mut r, cs[i]);
        assert(cs@.subrange(from as int, i + 1) == cs@.subrange(from as int, i as int).push(
            cs@[i as int],
        ));
        i = i + 1;
    }
    r
}

/// The text without surrounding whitespace.
pub fn trim_text(s: &str) -> (r: String)
    ensures
        r@ == trim(s@),
{
    let cs = chars_of(s);
    let n = cs.len();
    let mut a: usize = 0;
    assert(cs@.subrange(0, n as int) == cs@);
    while a < n && is_whitespace(cs[a])
        invariant
            cs@ == s@,
            n == cs@.len(),
            a <= n,
            trim_start(s@) == trim_start(cs@.subrange(a as int, n as int)),
        decreases n - a,
    {
        assert(cs@.subrange(a as int, n as int).drop_first() == cs@.subrange(a + 1, n as int));
        a = a + 1;
    }
    assert(trim_start(cs@.subrange(a as int, n as int)) == cs@.subrange(a as int, n as int));
    let mut b: usize = n;
    while b > a && is_whitespace(cs[b - 1])
        invariant
            cs@ == s@,
            n == cs@.len(),
            a <= b <= n,
            trim(s@) == trim_end(cs@.subrange(a as int, b as int)),
        decreases b - a,
    {
        assert(cs@.subrange(a as int, b as int).drop_last() == cs@.subrange(a as int, b - 1));
        b = b - 1;
    }
    string_of_range(&cs, a, b)
}

/// Whether `p` occurs in `s` at position `at`.
pub fn chars_at(s: &Vec<char>, p: &Vec<char>, at: usize) -> (r: bool)
    ensures
        r == occurs_at(s@, p@, at as int),
{
    if at > s.len() || p.len() > s.len() - at {
        return false;
    }
    let mut j: usize = 0;
    while j < p.len()
        invariant
            at + p@.len() <= s@.len(),
            s@.len() <= usize::MAX,
            j <= p@.len(),
            forall|k: int| 0 <= k < j ==> s@[at + k] == p@[k],
        decreases p.len() - j,
    {
        if s[at + j] != p[j] {
            assert(s@.subrange(at as int, at + p@.len())[j as int] != p@[j as int]);
            return false;
        }
        j = j + 1;
    }
    assert(s@.subrange(at as int, at + p@.len()) == p@);
    true
}

/// Whether the text starts with `p`.
pub fn starts_with(s: &str, p: &str) -> (r: bool)
    ensures
        r == has_prefix(s@, p@),
{
    let cs = chars_of(s);
    let ps = chars_of(p);
    chars_at(&cs, &ps, 0)
}

/// Whether the text ends with `p`.
pub fn ends_with(s: &str, p: &str) -> (r: bool)
    ensures
        r == has_suffix(s@, p@),
{
    let cs = chars_of(s);
    let ps = chars_of(p);
    if ps.len() > cs.len() {
        return false;
    }
    chars_at(&cs, &ps, cs.len() - ps.len())
}

/// Whether `p` occurs anywhere in the text.
pub fn contains(s: &str, p: &str) -> (r: bool)
    ensures
        r == has_infix(s@, p@),
{
    let cs = chars_of(s);
    let ps = chars_of(p);
    if ps.len() > cs.len() {
        assert forall|i: int| !occurs_at(s@, p@, i) by {}
        return false;
    }
    let last = cs.len() - ps.len();
    let mut i: usize = 0;
    loop
        invariant
            cs@ == s@,
            ps@ == p@,
            last == cs@.len() - ps@.len(),
            i <= last,
            forall|k: int| 0 <= k < i ==> !occurs_at(s@, p@, k),
        decreases last - i,
    {
        if chars_at(&cs, &ps, i) {
            return true;
        }
        if i == last {
            assert forall|k: int| !occurs_at(s@, p@, k) by {
                if 0 <= k && k + p@.len() <= s@.len() {
                    assert(k <= i);
                }
            }
            return false;
        }
        i = i + 1;
    }
}

/// Whether two texts are equal.
pub fn same_text(a: &str, b: &str) -> (r: bool)
    ensures
        r == (a@ == b@),
{
    let x = chars_of(a);
    let y = chars_of(b);
    if x.len() != y.len() {
        return false;
    }
    let r = chars_at(&x, &y, 0);
    assert(a@ == a@.subrange(0, a@.len() as int));
    r
}

/// The lines finished by a newline, and the text after the last newline.
fn split_pieces(s: &str) -> (r: (Vec<String>, String))
    ensures
        (strings_view(r.0@), r.1@) == split_state(s@),
{
    let cs = chars_of(s);
    let mut done: Vec<String> = Vec::new();
    let mut cur = String::new();
    let mut i: usize = 0;
    while i < cs.len()
        invariant
            cs@ == s@,
            i <= cs@.len(),
            (strings_view(done@), cur@) == split_state(cs@.subrange(0, i as int)),
        decreases cs.len() - i,
    {
        assert(cs@.subrange(0, i + 1).drop_last() == cs@.subrange(0, i as int));
        let c = cs[i];
        if c == '\n' {
            let finished = cur;
            done.push(finished);
            cur = String::new();
            assert(strings_view(done@) == strings_view(done@.drop_last()).push(finished@));
        } else {
            push_char(&mut cur, c);
        }
        i = i + 1;
    }
    assert(cs@.subrange(0, cs@.len() as int) == cs@);
    (done, cur)
}

/// The lines of a text, split on `'\n'` alone.
pub fn split_lines(s: &str) -> (r: Vec<String>)
    ensures
        strings_view(r@) == lines_of(s@),
{
    let (mut done, cur) = split_pieces(s);
    if !cur.as_str().is_empty() {
        let ghost before = done@;
        done.push(cur);
        assert(strings_view(done@) == strings_view(before).push(cur@));
    }
    done
}

/// The text without one trailing `'\r'`.
fn without_cr(l: &String) -> (r: String)
    ensures
        r@ == strip_cr(l@),
{
    let cs = chars_of(l.as_str());
    if cs.len() > 0 && cs[cs.len() - 1] == '\r' {
        string_of_range(&cs, 0, cs.len() - 1)
    } else {
        string_of_range(&cs, 0, cs.len())
    }
}

/// The lines of a text as `str::lines` yields them.
pub fn text_lines(s: &str) -> (r: Vec<String>)
    ensures
        strings_view(r@) == std_lines(s@),
{
    let (done, cur) = split_pieces(s);
    let ghost ended = strings_view(done@).map_values(|l: Seq<char>| strip_cr(l));
    let mut out: Vec<String> = Vec::new();
    let mut i: usize = 0;
    while i < done.len()
        invariant
            i <= done@.len(),
            ended == strings_view(done@).map_values(|l: Seq<char>| strip_cr(l)),
            strings_view(out@) == ended.subrange(0, i as int),
        decreases done.len() - i,
    {
        let l = without_cr(&done[i]);
        let ghost before = out@;
        out.push(l);
        assert(strings_view(out@) == strings_view(before).push(l@));
        assert(ended.subrange(0, i + 1) == ended.subrange(0, i as int).push(ended[i as int]));
        i = i + 1;
    }
    assert(ended.subrange(0, ended.len() as int) == ended);
    if !cur.as_str().is_empty() {
        let ghost before = out@;
        out.push(cur);
        assert(strings_view(out@) == strings_view(before).push(cur@));
    }
    out
}

/// Splitting text that ends a run of newline-free lines continues from
/// the state before it.
proof fn lemma_split_extend(a: Seq<char>, b: Seq<char>)
    requires
        no_newline(b),
    ensures
        split_state(a + b) == (split_state(a).0, split_state(a).1 + b),
    decreases b.len(),
{
    if b.len() == 0 {
        assert(a + b == a);
        assert(split_state(a).1 + b == split_state(a).1);
    } else {
        let b0 = b.drop_last();
        assert(no_newline(b0)) by {
            assert forall|i: int| 0 <= i < b0.len() implies #[trigger] b0[i] != '\n' by {
                assert(b0[i] == b[i]);
            }
        }
        lemma_split_extend(a, b0);
        assert((a + b).drop_last() == a + b0);
        assert((a + b).last() == b.last());
        assert(b.last() == b[b.len() - 1]);
        assert(split_state(a).1 + b == (split_state(a).1 + b0).push(b.last()));
    }
}

/// Joining newline-free lines and splitting the result gives the lines back.
pub proof fn lemma_lines_of_join(ls: Seq<Seq<char>>)
    requires
        forall|i: int| 0 <= i < ls.len() ==> no_newline(#[trigger] ls[i]),
    ensures
        split_state(join_lines(ls)) == (ls, Seq::<char>::empty()),
        lines_of(join_lines(ls)) == ls,
    decreases ls.len(),
{
    if ls.len() > 0 {
        let front = ls.drop_last();
        let l = ls.last();
        assert forall|i: int| 0 <= i < front.len() implies no_newline(#[trigger] front[i]) by {
            assert(front[i] == ls[i]);
        }
        lemma_lines_of_join(front);
        assert(no_newline(l)) by {
            assert(l == ls[ls.len() - 1]);
        }
        let j = join_lines(front);
        lemma_split_extend(j, l);
        assert(join_lines(ls) == (j + l).push('\n'));
        assert((j + l).push('\n').drop_last() == j + l);
        assert(Seq::<char>::empty() + l == l);
        assert(front.push(l) == ls);
    }
}

/// No line that splitting yields holds a newline.
pub proof fn lemma_split_no_newline(s: Seq<char>)
    ensures
        forall|i: int|
            0 <= i < split_state(s).0.len() ==> no_newline(#[trigger] split_state(s).0[i]),
        no_newline(split_state(s).1),
        forall|i: int| 0 <= i < lines_of(s).len() ==> no_newline(#[trigger] lines_of(s)[i]),
    decreases s.len(),
{
    if s.len() > 0 {
        lemma_split_no_newline(s.drop_last());
        let (done, cur) = split_state(s.drop_last());
        if s.last() != '\n' {
            assert forall|i: int| 0 <= i < cur.push(s.last()).len() implies #[trigger] cur.push(
                s.last(),
            )[i] != '\n' by {
                if i < cur.len() {
                    assert(cur.push(s.last())[i] == cur[i]);
                }
            }
        }
    }
    let (done, cur) = split_state(s);
    if cur.len() > 0 {
        assert forall|i: int| 0 <= i < lines_of(s).len() implies no_newline(
            #[trigger] lines_of(s)[i],
        ) by {
            if i < done.len() {
                assert(lines_of(s)[i] == done[i]);
            }
        }
    }
}

} // verus!
