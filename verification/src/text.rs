use vstd::prelude::*;

verus! {

/// The characters that `char::is_whitespace` accepts: Unicode White_Space.
pub open spec fn is_ws(c: char) -> bool {
    let u = c as u32;
    ||| 0x09 <= u <= 0x0d
    ||| u == 0x20
    ||| u == 0x85
    ||| u == 0xa0
    ||| u == 0x1680
    ||| 0x2000 <= u <= 0x200a
    ||| u == 0x2028
    ||| u == 0x2029
    ||| u == 0x202f
    ||| u == 0x205f
    ||| u == 0x3000
}

/// `s` without its leading whitespace.
pub open spec fn trim_start_spec(s: Seq<char>) -> Seq<char>
    decreases s.len(),
{
    if s.len() > 0 && is_ws(s[0]) {
        trim_start_spec(s.drop_first())
    } else {
        s
    }
}

/// `s` without its trailing whitespace.
pub open spec fn trim_end_spec(s: Seq<char>) -> Seq<char>
    decreases s.len(),
{
    if s.len() > 0 && is_ws(s.last()) {
        trim_end_spec(s.drop_last())
    } else {
        s
    }
}

/// `s` without leading and trailing whitespace.
pub open spec fn trim_spec(s: Seq<char>) -> Seq<char> {
    trim_end_spec(trim_start_spec(s))
}

/// Whether `s` holds nothing but whitespace.
pub open spec fn is_blank(s: Seq<char>) -> bool {
    trim_spec(s).len() == 0
}

/// The index of the first `'\n'` at or after `i`, or the length of `s`.
pub open spec fn next_newline(s: Seq<char>, i: int) -> int
    decreases s.len() - i,
{
    if i >= s.len() {
        s.len() as int
    } else if s[i] == '\n' {
        i
    } else {
        next_newline(s, i + 1)
    }
}

pub proof fn lemma_next_newline(s: Seq<char>, i: int)
    requires
        0 <= i <= s.len(),
    ensures
        i <= next_newline(s, i) <= s.len(),
        next_newline(s, i) < s.len() ==> s[next_newline(s, i)] == '\n',
        forall|k: int| i <= k < next_newline(s, i) ==> s[k] != '\n',
    decreases s.len() - i,
{
    if i < s.len() && s[i] != '\n' {
        lemma_next_newline(s, i + 1);
    }
}

/// A line as `str::lines` gives it: the `"\r"` of a `"\r\n"` ending goes too.
pub open spec fn line_body(s: Seq<char>, i: int, e: int) -> Seq<char> {
    if e < s.len() && e > i && s[e - 1] == '\r' {
        s.subrange(i, e - 1)
    } else {
        s.subrange(i, e)
    }
}

/// The lines of `s` from index `i` on, as `str::lines` splits them.
pub open spec fn lines_from(s: Seq<char>, i: int) -> Seq<Seq<char>>
    decreases s.len() - i,
    via lines_from_decreases
{
    if i < 0 || i >= s.len() {
        Seq::empty()
    } else {
        let e = next_newline(s, i);
        if e >= s.len() {
            seq![line_body(s, i, e)]
        } else {
            seq![line_body(s, i, e)] + lines_from(s, e + 1)
        }
    }
}

#[via_fn]
proof fn lines_from_decreases(s: Seq<char>, i: int) {
    if 0 <= i < s.len() {
        lemma_next_newline(s, i);
    }
}

/// The lines of `s`, as `str::lines` splits them.
pub open spec fn lines_spec(s: Seq<char>) -> Seq<Seq<char>> {
    lines_from(s, 0)
}

/// The decimal digit `d` (`d < 10`).
pub open spec fn digit_char(d: nat) -> char {
    if d == 0 {
        '0'
    } else if d == 1 {
        '1'
    } else if d == 2 {
        '2'
    } else if d == 3 {
        '3'
    } else if d == 4 {
        '4'
    } else if d == 5 {
        '5'
    } else if d == 6 {
        '6'
    } else if d == 7 {
        '7'
    } else if d == 8 {
        '8'
    } else {
        '9'
    }
}

/// `n` written in decimal, as `{}` formats it.
pub open spec fn decimal(n: nat) -> Seq<char>
    decreases n,
{
    if n < 10 {
        seq![digit_char(n)]
    } else {
        decimal(n / 10).push(digit_char(n % 10))
    }
}

/// Appends one character to a string through std's `String::push`, which its
/// documentation says appends the character to the end of the string; the
/// contract claims just that, unproved.
#[verifier::external_body]
pub(crate) fn push_char(s: &mut String, c: char)
    ensures
        final(s)@ == old(s)@.push(c),
{
    s.push(c);
}

/// The characters of `s`.
pub fn chars_of(s: &str) -> (r: Vec<char>)
    ensures
        r@ == s@,
{
    let mut v: Vec<char> = Vec::new();
    for c in it: s.chars()
        invariant
            it.seq() == s@,
            v@ == s@.take(it.index() as int),
    {
        v.push(c);
        assert(v@ =~= s@.take(it.index() as int + 1));
    }
    assert(v@ =~= s@);
    v
}

/// The string made of `cs[lo..hi]`.
pub fn string_of(cs: &Vec<char>, lo: usize, hi: usize) -> (r: String)
    requires
        lo <= hi <= cs@.len(),
    ensures
        r@ == cs@.subrange(lo as int, hi as int),
{
    let mut s = String::new();
    let mut i = lo;
    while i < hi
        invariant
            lo <= i <= hi,
            hi <= cs@.len(),
            s@ == cs@.subrange(lo as int, i as int),
        decreases hi - i,
    {
        push_char(&mut s, cs[i]);
        i = i + 1;
        assert(s@ =~= cs@.subrange(lo as int, i as int));
    }
    s
}

/// Appends `cs[lo..hi]` to `s`.
pub fn push_chars(s: &mut String, cs: &Vec<char>, lo: usize, hi: usize)
    requires
        lo <= hi <= cs@.len(),
    ensures
        final(s)@ == old(s)@ + cs@.subrange(lo as int, hi as int),
{
    let ghost start = s@;
    let mut i = lo;
    while i < hi
        invariant
            lo <= i <= hi,
            hi <= cs@.len(),
            s@ == start + cs@.subrange(lo as int, i as int),
        decreases hi - i,
    {
        push_char(s, cs[i]);
        i = i + 1;
        assert(s@ =~= start + cs@.subrange(lo as int, i as int));
    }
}

/// Appends `t` to `s`.
pub fn push_str(s: &mut String, t: &str)
    ensures
        final(s)@ == old(s)@ + t@,
{
    let cs = chars_of(t);
    push_chars(s, &cs, 0, cs.len());
    assert(cs@.subrange(0, cs@.len() as int) =~= t@);
}

fn digit(d: u64) -> (c: char)
    requires
        d < 10,
    ensures
        c == digit_char(d as nat),
{
    if d == 0 {
        '0'
    } else if d == 1 {
        '1'
    } else if d == 2 {
        '2'
    } else if d == 3 {
        '3'
    } else if d == 4 {
        '4'
    } else if d == 5 {
        '5'
    } else if d == 6 {
        '6'
    } else if d == 7 {
        '7'
    } else if d == 8 {
        '8'
    } else {
        '9'
    }
}

/// Appends `n` written in decimal.
pub fn push_decimal(s: &mut String, n: u64)
    ensures
        final(s)@ == old(s)@ + decimal(n as nat),
    decreases n,
{
    let ghost start = s@;
    if n >= 10 {
        push_decimal(s, n / 10);
    }
    push_char(s, digit(n % 10));
    assert(s@ =~= start + decimal(n as nat));
}

/// Whether `c` is whitespace, as `char::is_whitespace` decides.
pub fn is_whitespace(c: char) -> (r: bool)
    ensures
        r == is_ws(c),
{
    let u = c as u32;
    (0x09 <= u && u <= 0x0d) || u == 0x20 || u == 0x85 || u == 0xa0 || u == 0x1680 || (0x2000 <= u
        && u <= 0x200a) || u == 0x2028 || u == 0x2029 || u == 0x202f || u == 0x205f || u == 0x3000
}

pub proof fn lemma_trim_start_skip(s: Seq<char>, i: int)
    requires
        0 <= i < s.len(),
        is_ws(s[i]),
    ensures
        trim_start_spec(s.subrange(i, s.len() as int)) == trim_start_spec(
            s.subrange(i + 1, s.len() as int),
        ),
{
    assert(s.subrange(i, s.len() as int).drop_first() =~= s.subrange(i + 1, s.len() as int));
}

pub proof fn lemma_trim_end_skip(s: Seq<char>, j: int)
    requires
        0 < j <= s.len(),
        is_ws(s[j - 1]),
    ensures
        trim_end_spec(s.subrange(0, j)) == trim_end_spec(s.subrange(0, j - 1)),
{
    assert(s.subrange(0, j).drop_last() =~= s.subrange(0, j - 1));
}

/// The bounds of `trim_spec(cs[lo..hi])` within `cs`.
pub fn trim_bounds(cs: &Vec<char>, lo: usize, hi: usize) -> (r: (usize, usize))
    requires
        lo <= hi <= cs@.len(),
    ensures
        lo <= r.0 <= r.1 <= hi,
        cs@.subrange(r.0 as int, r.1 as int) == trim_spec(cs@.subrange(lo as int, hi as int)),
{
    let ghost s = cs@.subrange(lo as int, hi as int);
    let mut i = lo;
    while i < hi && is_whitespace(cs[i])
        invariant
            lo <= i <= hi,
            hi <= cs@.len(),
            s == cs@.subrange(lo as int, hi as int),
            trim_start_spec(s) == trim_start_spec(cs@.subrange(i as int, hi as int)),
        decreases hi - i,
    {
        proof {
            let t = cs@.subrange(i as int, hi as int);
            lemma_trim_start_skip(t, 0);
            assert(t.subrange(0, t.len() as int) =~= t);
            assert(t.subrange(1, t.len() as int) =~= cs@.subrange(i + 1, hi as int));
        }
        i = i + 1;
    }
    proof {
        let t = cs@.subrange(i as int, hi as int);
        assert(trim_start_spec(t) == t);
    }
    let mut j = hi;
    while j > i && is_whitespace(cs[j - 1])
        invariant
            lo <= i <= j <= hi,
            hi <= cs@.len(),
            trim_spec(s) == trim_end_spec(cs@.subrange(i as int, j as int)),
        decreases j - i,
    {
        proof {
            let t = cs@.subrange(i as int, j as int);
            lemma_trim_end_skip(t, t.len() as int);
            assert(t.subrange(0, t.len() as int) =~= t);
            assert(t.subrange(0, t.len() - 1) =~= cs@.subrange(i as int, j - 1));
        }
        j = j - 1;
    }
    (i, j)
}

/// `s` without leading and trailing whitespace, as `str::trim` gives it.
pub fn trim(s: &str) -> (r: String)
    ensures
        r@ == trim_spec(s@),
{
    let cs = chars_of(s);
    let (a, b) = trim_bounds(&cs, 0, cs.len());
    assert(cs@.subrange(0, cs@.len() as int) =~= s@);
    string_of(&cs, a, b)
}

/// `s` without trailing whitespace, as `str::trim_end` gives it.
pub fn trim_end(s: &str) -> (r: String)
    ensures
        r@ == trim_end_spec(s@),
{
    let cs = chars_of(s);
    let mut j = cs.len();
    assert(cs@.subrange(0, j as int) =~= s@);
    while j > 0 && is_whitespace(cs[j - 1])
        invariant
            j <= cs@.len(),
            trim_end_spec(s@) == trim_end_spec(cs@.subrange(0, j as int)),
        decreases j,
    {
        proof {
            let t = cs@.subrange(0, j as int);
            lemma_trim_end_skip(t, j as int);
            assert(t.subrange(0, j - 1) =~= cs@.subrange(0, j - 1));
            assert(t.subrange(0, j as int) =~= t);
        }
        j = j - 1;
    }
    proof {
        assert(cs@.subrange(0, cs@.len() as int) =~= s@);
    }
    string_of(&cs, 0, j)
}

/// The index of the first `'\n'` in `cs` at or after `i`, or the length of `cs`.
pub fn find_newline(cs: &Vec<char>, i: usize) -> (r: usize)
    requires
        i <= cs@.len(),
    ensures
        r == next_newline(cs@, i as int),
{
    let mut k = i;
    while k < cs.len() && cs[k] != '\n'
        invariant
            i <= k <= cs@.len(),
            next_newline(cs@, i as int) == next_newline(cs@, k as int),
        decreases cs@.len() - k,
    {
        k = k + 1;
    }
    k
}

/// The end of the body of the line that starts at `i`, and the index of the
/// newline that ends it (the length of `cs` when none does).
pub fn line_at(cs: &Vec<char>, i: usize) -> (r: (usize, usize))
    requires
        i < cs@.len(),
    ensures
        i <= r.0 <= cs@.len(),
        r.0 <= r.1 <= cs@.len(),
        r.1 == next_newline(cs@, i as int),
        cs@.subrange(i as int, r.0 as int) == line_body(cs@, i as int, next_newline(cs@, i as int)),
        lines_from(cs@, i as int) == seq![cs@.subrange(i as int, r.0 as int)] + lines_from(
            cs@,
            r.1 + 1,
        ),
{
    let e = find_newline(cs, i);
    proof {
        lemma_next_newline(cs@, i as int);
    }
    let body_end = if e < cs.len() && e > i && cs[e - 1] == '\r' {
        e - 1
    } else {
        e
    };
    (body_end, e)
}

/// The first line of `ls` that is not blank.
pub open spec fn first_nonblank(ls: Seq<Seq<char>>) -> Option<Seq<char>>
    decreases ls.len(),
{
    if ls.len() == 0 {
        None
    } else if !is_blank(ls[0]) {
        Some(ls[0])
    } else {
        first_nonblank(ls.drop_first())
    }
}

/// The last line of `ls` that is not blank.
pub open spec fn last_nonblank(ls: Seq<Seq<char>>) -> Option<Seq<char>>
    decreases ls.len(),
{
    if ls.len() == 0 {
        None
    } else if !is_blank(ls.last()) {
        Some(ls.last())
    } else {
        last_nonblank(ls.drop_last())
    }
}

/// The lines of `ls` that are not blank, in order.
pub open spec fn nonblank_lines(ls: Seq<Seq<char>>) -> Seq<Seq<char>>
    decreases ls.len(),
{
    if ls.len() == 0 {
        Seq::empty()
    } else if is_blank(ls.last()) {
        nonblank_lines(ls.drop_last())
    } else {
        nonblank_lines(ls.drop_last()).push(ls.last())
    }
}

pub proof fn lemma_first_nonblank_push(ls: Seq<Seq<char>>, l: Seq<char>)
    ensures
        first_nonblank(ls.push(l)) == match first_nonblank(ls) {
            Some(x) => Some(x),
            None => if is_blank(l) { None } else { Some(l) },
        },
    decreases ls.len(),
{
    if ls.len() > 0 {
        assert(ls.push(l)[0] == ls[0]);
        assert(ls.push(l).drop_first() =~= ls.drop_first().push(l));
        lemma_first_nonblank_push(ls.drop_first(), l);
    } else {
        assert(ls.push(l)[0] == l);
        assert(ls.push(l).drop_first() =~= Seq::<Seq<char>>::empty());
        assert(first_nonblank(Seq::<Seq<char>>::empty()) is None);
    }
}

/// The characters `cs[lo..hi]`.
pub fn sub_chars(cs: &Vec<char>, lo: usize, hi: usize) -> (r: Vec<char>)
    requires
        lo <= hi <= cs@.len(),
    ensures
        r@ == cs@.subrange(lo as int, hi as int),
{
    let mut v: Vec<char> = Vec::new();
    let mut i = lo;
    while i < hi
        invariant
            lo <= i <= hi,
            hi <= cs@.len(),
            v@ == cs@.subrange(lo as int, i as int),
        decreases hi - i,
    {
        v.push(cs[i]);
        i = i + 1;
        assert(v@ =~= cs@.subrange(lo as int, i as int));
    }
    v
}

/// The lines that the bounds `bs` cut out of `cs`.
pub open spec fn cut(cs: Seq<char>, bs: Seq<(usize, usize)>) -> Seq<Seq<char>> {
    Seq::new(bs.len(), |k: int| cs.subrange(bs[k].0 as int, bs[k].1 as int))
}

/// The bounds of the lines of `cs`, as `str::lines` splits them.
pub fn line_bounds(cs: &Vec<char>) -> (r: Vec<(usize, usize)>)
    ensures
        forall|k: int| 0 <= k < r@.len() ==> #[trigger] r@[k].0 <= r@[k].1 <= cs@.len(),
        cut(cs@, r@) == lines_spec(cs@),
{
    let mut out: Vec<(usize, usize)> = Vec::new();
    let mut i: usize = 0;
    while i < cs.len()
        invariant
            i <= cs@.len(),
            forall|k: int| 0 <= k < out@.len() ==> #[trigger] out@[k].0 <= out@[k].1 <= cs@.len(),
            lines_spec(cs@) == cut(cs@, out@) + lines_from(cs@, i as int),
        decreases cs@.len() - i,
    {
        let (b, e) = line_at(cs, i);
        let ghost before = out@;
        out.push((i, b));
        assert(cut(cs@, out@) =~= cut(cs@, before).push(cs@.subrange(i as int, b as int)));
        assert forall|k: int| 0 <= k < out@.len() implies #[trigger] out@[k].0 <= out@[k].1 <= cs@.len() by {
            if k < before.len() {
                assert(out@[k] == before[k]);
            }
        }
        if e < cs.len() {
            i = e + 1;
        } else {
            assert(lines_from(cs@, e + 1) =~= lines_from(cs@, cs@.len() as int));
            i = cs.len();
        }
        assert(lines_spec(cs@) =~= cut(cs@, out@) + lines_from(cs@, i as int));
    }
    assert(lines_spec(cs@) =~= cut(cs@, out@));
    out
}

/// Whether `cs[lo..hi]` is blank.
pub fn blank_at(cs: &Vec<char>, lo: usize, hi: usize) -> (r: bool)
    requires
        lo <= hi <= cs@.len(),
    ensures
        r == is_blank(cs@.subrange(lo as int, hi as int)),
{
    let (a, b) = trim_bounds(cs, lo, hi);
    a == b
}

/// The bounds of the first non-blank line of `cs`.
pub fn first_nonblank_line(cs: &Vec<char>) -> (r: Option<(usize, usize)>)
    ensures
        match r {
            Some(b) => b.0 <= b.1 <= cs@.len() && first_nonblank(lines_spec(cs@)) == Some(
                cs@.subrange(b.0 as int, b.1 as int),
            ),
            None => first_nonblank(lines_spec(cs@)) is None,
        },
{
    let bs = line_bounds(cs);
    let ghost ls = lines_spec(cs@);
    let mut k: usize = 0;
    while k < bs.len()
        invariant
            k <= bs@.len(),
            forall|j: int| 0 <= j < bs@.len() ==> #[trigger] bs@[j].0 <= bs@[j].1 <= cs@.len(),
            cut(cs@, bs@) == ls,
            ls == lines_spec(cs@),
            first_nonblank(ls.take(k as int)) is None,
        decreases bs@.len() - k,
    {
        let (a, b) = bs[k];
        proof {
            lemma_first_nonblank_push(ls.take(k as int), ls[k as int]);
            assert(ls.take(k + 1) =~= ls.take(k as int).push(ls[k as int]));
        }
        if !blank_at(cs, a, b) {
            proof {
                lemma_first_nonblank_take(ls, k as int);
            }
            return Some((a, b));
        }
        k = k + 1;
    }
    assert(ls.take(k as int) =~= ls);
    None
}

pub proof fn lemma_first_nonblank_take(ls: Seq<Seq<char>>, k: int)
    requires
        0 <= k < ls.len(),
        first_nonblank(ls.take(k)) is None,
        !is_blank(ls[k]),
    ensures
        first_nonblank(ls) == Some(ls[k]),
    decreases k,
{
    if k > 0 {
        assert(!is_blank(ls[0]) ==> first_nonblank(ls.take(k)) == Some(ls[0]));
        assert(ls.take(k).drop_first() =~= ls.drop_first().take(k - 1));
        lemma_first_nonblank_take(ls.drop_first(), k - 1);
    }
}

/// The bounds of the last non-blank line of `cs`.
pub fn last_nonblank_line(cs: &Vec<char>) -> (r: Option<(usize, usize)>)
    ensures
        match r {
            Some(b) => b.0 <= b.1 <= cs@.len() && last_nonblank(lines_spec(cs@)) == Some(
                cs@.subrange(b.0 as int, b.1 as int),
            ),
            None => last_nonblank(lines_spec(cs@)) is None,
        },
{
    let bs = line_bounds(cs);
    let ghost ls = lines_spec(cs@);
    let mut last: Option<(usize, usize)> = None;
    let mut k: usize = 0;
    while k < bs.len()
        invariant
            k <= bs@.len(),
            forall|j: int| 0 <= j < bs@.len() ==> #[trigger] bs@[j].0 <= bs@[j].1 <= cs@.len(),
            cut(cs@, bs@) == ls,
            ls == lines_spec(cs@),
            match last {
                Some(b) => b.0 <= b.1 <= cs@.len() && last_nonblank(ls.take(k as int)) == Some(
                    cs@.subrange(b.0 as int, b.1 as int),
                ),
                None => last_nonblank(ls.take(k as int)) is None,
            },
        decreases bs@.len() - k,
    {
        let (a, b) = bs[k];
        assert(ls.take(k + 1).drop_last() =~= ls.take(k as int));
        if !blank_at(cs, a, b) {
            last = Some((a, b));
        }
        k = k + 1;
    }
    assert(ls.take(k as int) =~= ls);
    last
}

/// The non-blank lines of `cs`, in order.
pub fn nonblank_line_strings(cs: &Vec<char>) -> (r: Vec<String>)
    ensures
        r@.map_values(|x: String| x@) == nonblank_lines(lines_spec(cs@)),
{
    let bs = line_bounds(cs);
    let ghost ls = lines_spec(cs@);
    let mut out: Vec<String> = Vec::new();
    let mut k: usize = 0;
    while k < bs.len()
        invariant
            k <= bs@.len(),
            forall|j: int| 0 <= j < bs@.len() ==> #[trigger] bs@[j].0 <= bs@[j].1 <= cs@.len(),
            cut(cs@, bs@) == ls,
            ls == lines_spec(cs@),
            out@.map_values(|x: String| x@) == nonblank_lines(ls.take(k as int)),
        decreases bs@.len() - k,
    {
        let (a, b) = bs[k];
        assert(ls.take(k + 1).drop_last() =~= ls.take(k as int));
        assert(ls[k as int] == cs@.subrange(a as int, b as int));
        if !blank_at(cs, a, b) {
            let ghost before = out@;
            out.push(string_of(cs, a, b));
            assert(out@.map_values(|x: String| x@) =~= before.map_values(|x: String| x@).push(
                cs@.subrange(a as int, b as int),
            ));
        }
        k = k + 1;
    }
    assert(ls.take(k as int) =~= ls);
    out
}

/// Whether two strings hold the same characters.
pub fn str_eq(a: &str, b: &str) -> (r: bool)
    ensures
        r == (a@ == b@),
{
    let ac = chars_of(a);
    let bc = chars_of(b);
    if ac.len() != bc.len() {
        assert(a@.len() != b@.len());
        return false;
    }
    let mut i: usize = 0;
    while i < ac.len()
        invariant
            i <= ac@.len(),
            ac@.len() == bc@.len(),
            ac@ == a@,
            bc@ == b@,
            forall|k: int| 0 <= k < i ==> ac@[k] == bc@[k],
        decreases ac@.len() - i,
    {
        if ac[i] != bc[i] {
            assert(a@[i as int] != b@[i as int]);
            return false;
        }
        i = i + 1;
    }
    assert(ac@ =~= bc@);
    true
}

} // verus!
