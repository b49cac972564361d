use vstd::prelude::*;

verus! {

/// Appends one character to a string, by `String::push`: the string afterwards
/// is the one before with `c` at its end.
#[verifier::external_body]
pub(crate) fn push_char(s: &mut String, c: char)
    ensures
        final(s)@ == old(s)@.push(c),
{
    s.push(c);
}

/// The characters of `s`, in order.
pub fn chars_of(s: &str) -> (r: Vec<char>)
    ensures
        r@ == s@,
{
    broadcast use vstd::string::group_string_axioms;
    let mut r: Vec<char> = Vec::new();
    for c in it: s.chars()
        invariant
            r@ == it.seq().take(it.index() as int),
            it.seq() == s@,
    {
        r.push(c);
    }
    r
}

/// The string made of `cs[from..to]`.
pub fn string_of_range(cs: &Vec<char>, from: usize, to: usize) -> (r: String)
    requires
        from <= to <= cs.len(),
    ensures
        r@ == cs@.subrange(from as int, to as int),
{
    let mut r = String::new();
    let mut i = from;
    while i < to
        invariant
            from <= i <= to <= cs.len(),
            r@ == cs@.subrange(from as int, i as int),
        decreases to - i,
    {
        push_char(&mut r, cs[i]);
        i = i + 1;
        assert(r@ =~= cs@.subrange(from as int, i as int));
    }
    r
}

/// `a` followed by `b`, as a new string.
pub fn strcat(a: &str, b: &str) -> (r: String)
    ensures
        r@ == a@ + b@,
{
    let mut r = String::from_str(a);
    r.append(b);
    r
}

/// `a`, `b` and `c`, one after another, as a new string.
pub fn strcat3(a: &str, b: &str, c: &str) -> (r: String)
    ensures
        r@ == a@ + b@ + c@,
{
    let mut r = String::from_str(a);
    r.append(b);
    r.append(c);
    r
}

/// Whether two strings hold the same characters.
pub fn same_text(a: &str, b: &str) -> (r: bool)
    ensures
        r == (a@ == b@),
{
    let x = String::from_str(a);
    let y = String::from_str(b);
    x == y
}

// ---------------------------------------------------------------------------
// Unicode white space

/// The characters with the Unicode `White_Space` property.
pub open spec fn is_white(c: char) -> bool {
    let u = c as u32;
    ||| 0x09 <= u <= 0x0d
    ||| u == 0x20
    ||| u == 0x85
    ||| u == 0xa0
    ||| u == 0x1680
    ||| 0x2000 <= u <= 0x200a
    ||| u == 0x2028
    ||| u == 0x2029
    ||| u == 0x202f
    ||| u == 0x205f
    ||| u == 0x3000
}

/// Whether `c` is white space in the sense of Unicode's `White_Space` property.
pub fn is_whitespace(c: char) -> (r: bool)
    ensures
        r == is_white(c),
{
    let u = c as u32;
    (0x09 <= u && u <= 0x0d) || u == 0x20 || u == 0x85 || u == 0xa0 || u == 0x1680 || (0x2000
        <= u && u <= 0x200a) || u == 0x2028 || u == 0x2029 || u == 0x202f || u == 0x205f || u
        == 0x3000
}

/// `s` without its leading white space.
pub open spec fn trim_start(s: Seq<char>) -> Seq<char>
    decreases s.len(),
{
    if s.len() > 0 && is_white(s[0]) {
        trim_start(s.drop_first())
    } else {
        s
    }
}

/// `s` without its trailing white space.
pub open spec fn trim_end(s: Seq<char>) -> Seq<char>
    decreases s.len(),
{
    if s.len() > 0 && is_white(s.last()) {
        trim_end(s.drop_last())
    } else {
        s
    }
}

/// `s` without leading and trailing white space.
pub open spec fn trimmed(s: Seq<char>) -> Seq<char> {
    trim_end(trim_start(s))
}

proof fn lemma_trim_start_skip(s: Seq<char>, i: int)
    requires
        0 <= i <= s.len(),
        forall|k: int| 0 <= k < i ==> is_white(#[trigger] s[k]),
    ensures
        trim_start(s) == trim_start(s.skip(i)),
    decreases i,
{
    if i > 0 {
        assert(is_white(s[0]));
        assert(s.drop_first().skip(i - 1) =~= s.skip(i));
        assert forall|k: int| 0 <= k < i - 1 implies is_white(#[trigger] s.drop_first()[k]) by {
            assert(s.drop_first()[k] == s[k + 1]);
        }
        lemma_trim_start_skip(s.drop_first(), i - 1);
    } else {
        assert(s.skip(0) =~= s);
    }
}

proof fn lemma_trim_end_take(s: Seq<char>, j: int)
    requires
        0 <= j <= s.len(),
        forall|k: int| j <= k < s.len() ==> is_white(#[trigger] s[k]),
    ensures
        trim_end(s) == trim_end(s.take(j)),
    decreases s.len() - j,
{
    if j < s.len() {
        assert(s.drop_last().take(j) =~= s.take(j));
        lemma_trim_end_take(s.drop_last(), j);
    } else {
        assert(s.take(j) =~= s);
    }
}

/// `s` without leading and trailing white space.
pub fn trim(s: &str) -> (r: String)
    ensures
        r@ == trimmed(s@),
{
    let cs = chars_of(s);
    let n = cs.len();
    let mut i: usize = 0;
    while i < n && is_whitespace(cs[i])
        invariant
            i <= n == cs.len(),
            forall|k: int| 0 <= k < i ==> is_white(#[trigger] cs@[k]),
        decreases n - i,
    {
        i = i + 1;
    }
    proof {
        lemma_trim_start_skip(cs@, i as int);
    }
    let ghost rest = cs@.skip(i as int);
    assert(trim_start(rest) == rest);
    let mut j: usize = n;
    while j > i && is_whitespace(cs[j - 1])
        invariant
            i <= j <= n == cs.len(),
            forall|k: int| j <= k < n ==> is_white(#[trigger] cs@[k]),
        decreases j,
    {
        j = j - 1;
    }
    proof {
        assert forall|k: int| j - i <= k < rest.len() implies is_white(#[trigger] rest[k]) by {
            assert(rest[k] == cs@[k + i]);
        }
        lemma_trim_end_take(rest, j - i);
        let t = rest.take(j - i);
        assert(t =~= cs@.subrange(i as int, j as int));
        if t.len() > 0 {
            assert(t.last() == cs@[j - 1]);
        }
    }
    string_of_range(&cs, i, j)
}

// ---------------------------------------------------------------------------
// Words separated by white space

/// The index of the first white-space character of `s`, or its length if it has none.
pub open spec fn first_white(s: Seq<char>) -> nat
    decreases s.len(),
{
    if s.len() == 0 {
        0
    } else if is_white(s[0]) {
        0
    } else {
        1 + first_white(s.drop_first())
    }
}

/// The maximal runs of characters other than white space in `s`, in order.
pub open spec fn words(s: Seq<char>) -> Seq<Seq<char>>
    decreases s.len(),
{
    if s.len() == 0 {
        Seq::empty()
    } else if is_white(s[0]) {
        words(s.drop_first())
    } else {
        let w = first_white(s);
        proof {
            lemma_first_white_bound(s);
        }
        seq![s.take(w as int)] + words(s.skip(w as int))
    }
}

pub proof fn lemma_first_white_bound(s: Seq<char>)
    ensures
        first_white(s) <= s.len(),
        forall|k: int| 0 <= k < first_white(s) ==> !is_white(#[trigger] s[k]),
        first_white(s) < s.len() ==> is_white(s[first_white(s) as int]),
    decreases s.len(),
{
    if s.len() > 0 && !is_white(s[0]) {
        lemma_first_white_bound(s.drop_first());
        assert forall|k: int| 0 <= k < first_white(s) implies !is_white(#[trigger] s[k]) by {
            if k > 0 {
                assert(s[k] == s.drop_first()[k - 1]);
            }
        }
    }
}

proof fn lemma_first_white_is(s: Seq<char>, j: int)
    requires
        0 <= j <= s.len(),
        forall|k: int| 0 <= k < j ==> !is_white(#[trigger] s[k]),
        j < s.len() ==> is_white(s[j]),
    ensures
        first_white(s) == j,
    decreases j,
{
    if j > 0 {
        lemma_first_white_is(s.drop_first(), j - 1);
    }
}

/// The words of `s`: its maximal runs of characters other than white space.
pub fn split_whitespace(s: &str) -> (r: Vec<String>)
    ensures
        r@.map_values(|w: String| w@) == words(s@),
{
    let cs = chars_of(s);
    let n = cs.len();
    let mut r: Vec<String> = Vec::new();
    let mut i: usize = 0;
    assert(cs@.skip(0) =~= cs@);
    while i < n
        invariant
            i <= n == cs.len(),
            words(s@) == r@.map_values(|w: String| w@) + words(cs@.skip(i as int)),
            cs@ == s@,
        decreases n - i,
    {
        let ghost rest = cs@.skip(i as int);
        if is_whitespace(cs[i]) {
            assert(rest.drop_first() =~= cs@.skip(i + 1));
            i = i + 1;
        } else {
            let mut j = i + 1;
            while j < n && !is_whitespace(cs[j])
                invariant
                    i < j <= n == cs.len(),
                    forall|k: int| i <= k < j ==> !is_white(#[trigger] cs@[k]),
                decreases n - j,
            {
                j = j + 1;
            }
            proof {
                assert forall|k: int| 0 <= k < j - i implies !is_white(#[trigger] rest[k]) by {
                    assert(rest[k] == cs@[k + i]);
                }
                if j < n {
                    assert(rest[j - i] == cs@[j as int]);
                }
                lemma_first_white_is(rest, j - i);
                assert(rest.take(j - i) =~= cs@.subrange(i as int, j as int));
                assert(rest.skip(j - i) =~= cs@.skip(j as int));
            }
            let w = string_of_range(&cs, i, j);
            let ghost before = r@.map_values(|w: String| w@);
            r.push(w);
            assert(r@.map_values(|w: String| w@) =~= before.push(cs@.subrange(i as int, j as int)));
            i = j;
        }
    }
    assert(words(cs@.skip(n as int)) =~= Seq::<Seq<char>>::empty()) by {
        assert(cs@.skip(n as int).len() == 0);
    }
    assert(r@.map_values(|w: String| w@) + Seq::<Seq<char>>::empty() =~= r@.map_values(
        |w: String| w@,
    ));
    r
}

/// Every word is a non-empty run of characters other than white space, and a
/// string of white space alone has no words.
pub proof fn lemma_words_are_clean(s: Seq<char>)
    ensures
        forall|i: int| 0 <= i < words(s).len() ==> #[trigger] words(s)[i].len() > 0,
        forall|i: int, k: int|
            0 <= i < words(s).len() && 0 <= k < words(s)[i].len() ==> !is_white(
                #[trigger] words(s)[i][k],
            ),
        (forall|k: int| 0 <= k < s.len() ==> is_white(#[trigger] s[k])) ==> words(s).len() == 0,
    decreases s.len(),
{
    if s.len() > 0 {
        if is_white(s[0]) {
            lemma_words_are_clean(s.drop_first());
            if forall|k: int| 0 <= k < s.len() ==> is_white(#[trigger] s[k]) {
                assert forall|k: int| 0 <= k < s.drop_first().len() implies is_white(
                    #[trigger] s.drop_first()[k],
                ) by {
                    assert(s.drop_first()[k] == s[k + 1]);
                }
            }
        } else {
            let w = first_white(s);
            lemma_first_white_bound(s);
            let rest = s.skip(w as int);
            lemma_words_are_clean(rest);
            let ws = words(s);
            assert(ws == seq![s.take(w as int)] + words(rest));
            assert forall|i: int| 0 <= i < ws.len() implies #[trigger] ws[i].len() > 0 by {
                if i > 0 {
                    assert(ws[i] == words(rest)[i - 1]);
                }
            }
            assert forall|i: int, k: int| 0 <= i < ws.len() && 0 <= k < ws[i].len() implies !is_white(
                #[trigger] ws[i][k],
            ) by {
                if i > 0 {
                    assert(ws[i] == words(rest)[i - 1]);
                } else {
                    assert(ws[0][k] == s[k]);
                }
            }
        }
    }
}

// ---------------------------------------------------------------------------
// Decimal numerals

/// The character of the decimal digit `d`.
pub open spec fn digit(d: nat) -> char
    recommends
        d < 10,
{
    (48 + d) as char
}

/// The decimal numeral of `n`, without leading zeros.
pub open spec fn decimal(n: nat) -> Seq<char>
    decreases n,
{
    if n < 10 {
        seq![digit(n)]
    } else {
        decimal(n / 10).push(digit(n % 10))
    }
}

fn digit_char(d: usize) -> (c: char)
    requires
        d < 10,
    ensures
        c == digit(d as nat),
{
    let b: u8 = 48u8 + d as u8;
    b as char
}

/// Appends the decimal numeral of `n` to `s`.
pub fn push_decimal(s: &mut String, n: usize)
    ensures
        final(s)@ == old(s)@ + decimal(n as nat),
    decreases n,
{
    if n >= 10 {
        push_decimal(s, n / 10);
    }
    push_char(s, digit_char(n % 10));
    assert(s@ =~= old(s)@ + decimal(n as nat));
}

// ---------------------------------------------------------------------------
// Joining

/// The items of `parts` with `sep` between each two of them.
pub open spec fn joined(parts: Seq<Seq<char>>, sep: Seq<char>) -> Seq<char>
    decreases parts.len(),
{
    if parts.len() == 0 {
        Seq::empty()
    } else if parts.len() == 1 {
        parts[0]
    } else {
        joined(parts.drop_last(), sep) + sep + parts.last()
    }
}

/// The strings of `parts` with `sep` between each two of them.
pub fn join_texts(parts: &Vec<String>, sep: &str) -> (r: String)
    ensures
        r@ == joined(parts@.map_values(|p: String| p@), sep@),
{
    let ghost all = parts@.map_values(|p: String| p@);
    let mut r = String::new();
    let mut i: usize = 0;
    while i < parts.len()
        invariant
            i <= parts@.len(),
            all == parts@.map_values(|p: String| p@),
            r@ == joined(all.take(i as int), sep@),
        decreases parts@.len() - i,
    {
        if i > 0 {
            r.append(sep);
        }
        r.append(parts[i].as_str());
        proof {
            let t = all.take(i + 1);
            assert(t.drop_last() =~= all.take(i as int));
            assert(t.last() == all[i as int]);
            if i == 0 {
                assert(joined(all.take(0), sep@) =~= Seq::<char>::empty());
            }
        }
        assert(r@ =~= joined(all.take(i + 1), sep@));
        i = i + 1;
    }
    assert(all.take(parts.len() as int) =~= all);
    r
}

// ---------------------------------------------------------------------------
// Paths

/// `base` with `p` appended as a path component: `p` itself when it is absolute
/// (starts with `/`), else `base`, a `/` unless `base` already ends with one, and `p`.
pub open spec fn path_join(base: Seq<char>, p: Seq<char>) -> Seq<char> {
    if p.len() > 0 && p[0] == '/' {
        p
    } else if base.len() > 0 && base.last() == '/' {
        base + p
    } else if base.len() == 0 {
        p
    } else {
        base + seq!['/'] + p
    }
}

/// Appends `p` to the path `base` as one more component.
pub fn join_path(base: &str, p: &str) -> (r: String)
    ensures
        r@ == path_join(base@, p@),
{
    let pc = chars_of(p);
    let bc = chars_of(base);
    if pc.len() > 0 && pc[0] == '/' {
        String::from_str(p)
    } else if bc.len() > 0 && bc[bc.len() - 1] == '/' {
        strcat(base, p)
    } else if bc.len() == 0 {
        String::from_str(p)
    } else {
        let mut r = String::from_str(base);
        push_char(&mut r, '/');
        r.append(p);
        r
    }
}

} // verus!
