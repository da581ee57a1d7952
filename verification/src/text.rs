//! Character and line level text handling: whitespace trimming with the
//! semantics of `str::trim`, and line splitting with the semantics of
//! `str::lines`.

use vstd::prelude::*;
use vstd::string::StrSliceExecFns;
use vstd::string::StringExecFns;

verus! {

/// The Unicode `White_Space` property on the characters beyond ASCII, as
/// `char::is_whitespace` decides it.
pub uninterp spec fn is_unicode_whitespace(c: char) -> bool;

/// The `White_Space` property of a character: within ASCII exactly tab, line
/// feed, vertical tab, form feed, carriage return and space; beyond ASCII
/// whatever `char::is_whitespace` says.
pub open spec fn is_space_char(c: char) -> bool {
    if (c as u32) < 128 {
        c == ' ' || c == '\t' || c == '\n' || c == '\r' || c as u32 == 11 || c as u32 == 12
    } else {
        is_unicode_whitespace(c)
    }
}

/// Relies on char::is_whitespace: true exactly when the character has the
/// Unicode `White_Space` property; within ASCII those are tab, line feed,
/// vertical tab, form feed, carriage return and space.
#[verifier::external_body]
pub fn char_is_whitespace(c: char) -> (r: bool)
    ensures
        r == is_space_char(c),
        (c as u32) >= 128 ==> r == is_unicode_whitespace(c),
{
    c.is_whitespace()
}

/// The string without its leading whitespace.
pub open spec fn trim_start_spec(s: Seq<char>) -> Seq<char>
    decreases s.len(),
{
    if s.len() == 0 {
        s
    } else if is_space_char(s[0]) {
        trim_start_spec(s.drop_first())
    } else {
        s
    }
}

/// The string without its trailing whitespace.
pub open spec fn trim_end_spec(s: Seq<char>) -> Seq<char>
    decreases s.len(),
{
    if s.len() == 0 {
        s
    } else if is_space_char(s[s.len() - 1]) {
        trim_end_spec(s.drop_last())
    } else {
        s
    }
}

/// What `str::trim` returns: the string without leading and trailing
/// whitespace.
pub open spec fn trim_spec(s: Seq<char>) -> Seq<char> {
    trim_end_spec(trim_start_spec(s))
}

proof fn lemma_trim_start_skip(s: Seq<char>, k: int)
    requires
        0 <= k <= s.len(),
        forall|i: int| 0 <= i < k ==> is_space_char(s[i]),
        k < s.len() ==> !is_space_char(s[k]),
    ensures
        trim_start_spec(s) == s.skip(k),
    decreases k,
{
    if k == 0 {
        assert(s.skip(0) =~= s);
    } else {
        lemma_trim_start_skip(s.drop_first(), k - 1);
        assert(s.drop_first().skip(k - 1) =~= s.skip(k));
    }
}

proof fn lemma_trim_end_take(s: Seq<char>, j: int)
    requires
        0 <= j <= s.len(),
        forall|i: int| j <= i < s.len() ==> is_space_char(s[i]),
        j > 0 ==> !is_space_char(s[j - 1]),
    ensures
        trim_end_spec(s) == s.take(j),
    decreases s.len() - j,
{
    if j == s.len() {
        assert(s.take(j) =~= s);
    } else {
        lemma_trim_end_take(s.drop_last(), j);
        assert(s.drop_last().take(j) =~= s.take(j));
    }
}

/// `str::trim`: the argument without leading and trailing whitespace.
pub fn trim_str(s: &str) -> (r: String)
    ensures
        r@ == trim_spec(s@),
{
    let n = s.unicode_len();
    let mut i: usize = 0;
    while i < n && char_is_whitespace(s.get_char(i))
        invariant
            0 <= i <= n,
            n == s@.len(),
            forall|k: int| 0 <= k < i ==> is_space_char(s@[k]),
        decreases n - i,
    {
        i = i + 1;
    }
    let mut j: usize = n;
    while j > i && char_is_whitespace(s.get_char(j - 1))
        invariant
            i <= j <= n,
            n == s@.len(),
            forall|k: int| 0 <= k < i ==> is_space_char(s@[k]),
            i < s@.len() ==> !is_space_char(s@[i as int]),
            forall|k: int| j <= k < n ==> is_space_char(s@[k]),
        decreases j,
    {
        j = j - 1;
    }
    proof {
        lemma_trim_start_skip(s@, i as int);
        lemma_trim_end_take(s@.skip(i as int), j - i);
        assert(s@.skip(i as int).take(j - i) =~= s@.subrange(i as int, j as int));
    }
    let piece = s.substring_char(i, j);
    piece.to_owned()
}

/// The views of a sequence of strings.
pub open spec fn views_of(v: Seq<String>) -> Seq<Seq<char>> {
    Seq::new(v.len(), |i: int| v[i]@)
}

/// A line with one trailing carriage return removed, as `str::lines` does to
/// every line that a line feed terminated.
pub open spec fn drop_cr(line: Seq<char>) -> Seq<char> {
    if line.len() > 0 && line[line.len() - 1] == '\r' {
        line.drop_last()
    } else {
        line
    }
}

/// The lines of `s` with `cur` as the line gathered so far: split at every
/// line feed, remove a carriage return before each line feed, and keep a
/// final unterminated line as it stands.
pub open spec fn lines_rec(s: Seq<char>, cur: Seq<char>) -> Seq<Seq<char>>
    decreases s.len(),
{
    if s.len() == 0 {
        if cur.len() == 0 {
            Seq::empty()
        } else {
            seq![cur]
        }
    } else if s[0] == '\n' {
        seq![drop_cr(cur)] + lines_rec(s.drop_first(), Seq::empty())
    } else {
        lines_rec(s.drop_first(), cur.push(s[0]))
    }
}

/// What `str::lines` yields.
pub open spec fn lines_spec(s: Seq<char>) -> Seq<Seq<char>> {
    lines_rec(s, Seq::empty())
}

/// `str::lines`: the lines of the argument, split at line feeds, each line
/// that ended in a carriage return followed by a line feed stripped of the
/// carriage return, and no line for a terminating line feed.
pub fn split_lines(s: &str) -> (r: Vec<String>)
    ensures
        views_of(r@) == lines_spec(s@),
{
    let n = s.unicode_len();
    let mut out: Vec<String> = Vec::new();
    let mut start: usize = 0;
    let mut i: usize = 0;
    proof {
        assert(s@.skip(0) =~= s@);
        assert(s@.subrange(0, 0) =~= Seq::<char>::empty());
        assert(views_of(out@) + lines_rec(s@, Seq::<char>::empty()) =~= lines_spec(s@));
    }
    while i < n
        invariant
            0 <= start <= i <= n,
            n == s@.len(),
            forall|k: int| start <= k < i ==> s@[k] != '\n',
            lines_spec(s@) == views_of(out@) + lines_rec(
                s@.skip(i as int),
                s@.subrange(start as int, i as int),
            ),
        decreases n - i,
    {
        let c = s.get_char(i);
        if c == '\n' {
            let end = if i > start && s.get_char(i - 1) == '\r' {
                i - 1
            } else {
                i
            };
            proof {
                assert(drop_cr(s@.subrange(start as int, i as int)) =~= s@.subrange(
                    start as int,
                    end as int,
                ));
                assert(s@.skip(i as int).drop_first() =~= s@.skip(i as int + 1));
            }
            let line = s.substring_char(start, end).to_owned();
            out.push(line);
            proof {
                assert(views_of(out@) =~= views_of(out@.drop_last()) + seq![
                    s@.subrange(start as int, end as int),
                ]);
                assert(s@.subrange(i as int + 1, i as int + 1) =~= Seq::<char>::empty());
            }
            i = i + 1;
            start = i;
        } else {
            proof {
                assert(s@.skip(i as int).drop_first() =~= s@.skip(i as int + 1));
                assert(s@.subrange(start as int, i as int).push(s@[i as int]) =~= s@.subrange(
                    start as int,
                    i as int + 1,
                ));
            }
            i = i + 1;
        }
    }
    if start < n {
        let line = s.substring_char(start, n).to_owned();
        out.push(line);
        proof {
            assert(s@.skip(n as int) =~= Seq::<char>::empty());
            assert(views_of(out@) =~= views_of(out@.drop_last()) + seq![
                s@.subrange(start as int, n as int),
            ]);
        }
    } else {
        proof {
            assert(s@.skip(n as int) =~= Seq::<char>::empty());
            assert(s@.subrange(start as int, n as int) =~= Seq::<char>::empty());
            assert(views_of(out@) + Seq::<Seq<char>>::empty() =~= views_of(out@));
        }
    }
    out
}

/// The decimal digit character for a value below ten.
pub open spec fn dec_digit(d: int) -> char {
    if d == 0 {
        '0'
    } else if d == 1 {
        '1'
    } else if d == 2 {
        '2'
    } else if d == 3 {
        '3'
    } else if d == 4 {
        '4'
    } else if d == 5 {
        '5'
    } else if d == 6 {
        '6'
    } else if d == 7 {
        '7'
    } else if d == 8 {
        '8'
    } else {
        '9'
    }
}

/// The decimal digits of a natural number, most significant first.
pub open spec fn dec_rep(n: nat) -> Seq<char>
    decreases n,
{
    if n < 10 {
        seq![dec_digit(n as int)]
    } else {
        dec_rep(n / 10).push(dec_digit((n % 10) as int))
    }
}

/// The decimal rendering of an integer, with a leading minus sign when it is
/// negative.
pub open spec fn int_rep(i: int) -> Seq<char> {
    if i < 0 {
        seq!['-'] + dec_rep((-i) as nat)
    } else {
        dec_rep(i as nat)
    }
}

fn dec_digit_str(d: u64) -> (r: &'static str)
    requires
        d < 10,
    ensures
        r@ == seq![dec_digit(d as int)],
{
    let r: &'static str = if d == 0 {
        "0"
    } else if d == 1 {
        "1"
    } else if d == 2 {
        "2"
    } else if d == 3 {
        "3"
    } else if d == 4 {
        "4"
    } else if d == 5 {
        "5"
    } else if d == 6 {
        "6"
    } else if d == 7 {
        "7"
    } else if d == 8 {
        "8"
    } else {
        "9"
    };
    proof {
        reveal_strlit("0");
        reveal_strlit("1");
        reveal_strlit("2");
        reveal_strlit("3");
        reveal_strlit("4");
        reveal_strlit("5");
        reveal_strlit("6");
        reveal_strlit("7");
        reveal_strlit("8");
        reveal_strlit("9");
        assert(r@ =~= seq![dec_digit(d as int)]);
    }
    r
}

/// The decimal rendering of an unsigned number.
pub fn u64_dec(n: u64) -> (r: String)
    ensures
        r@ == dec_rep(n as nat),
    decreases n,
{
    if n < 10 {
        dec_digit_str(n).to_owned()
    } else {
        let mut s = u64_dec(n / 10);
        s.append(dec_digit_str(n % 10));
        proof {
            assert(s@ =~= dec_rep(n as nat));
        }
        s
    }
}

/// The decimal rendering of a signed number.
pub fn i32_dec(i: i32) -> (r: String)
    ensures
        r@ == int_rep(i as int),
{
    if i < 0 {
        let mag: u64 = (-(i as i64)) as u64;
        let mut s = String::from_str("-");
        let digits = u64_dec(mag);
        s.append(digits.as_str());
        proof {
            reveal_strlit("-");
            assert(s@ =~= int_rep(i as int));
        }
        s
    } else {
        u64_dec(i as u64)
    }
}

/// A string wrapped in double quotes.
pub open spec fn quoted(s: Seq<char>) -> Seq<char> {
    seq!['"'] + s + seq!['"']
}

/// The items each wrapped in double quotes and joined with a comma and a
/// space.
pub open spec fn comma_list(items: Seq<Seq<char>>) -> Seq<char>
    decreases items.len(),
{
    if items.len() == 0 {
        Seq::empty()
    } else if items.len() == 1 {
        quoted(items[0])
    } else {
        quoted(items[0]) + seq![',', ' '] + comma_list(items.drop_first())
    }
}

/// A comma list wrapped in square brackets.
pub open spec fn bracketed_list(items: Seq<Seq<char>>) -> Seq<char> {
    seq!['['] + comma_list(items) + seq![']']
}

fn comma_list_from(items: &Vec<String>, from: usize) -> (r: String)
    requires
        from <= items.len(),
    ensures
        r@ == comma_list(views_of(items@).skip(from as int)),
    decreases items.len() - from,
{
    let ghost tail = views_of(items@).skip(from as int);
    if from == items.len() {
        proof {
            assert(tail =~= Seq::<Seq<char>>::empty());
        }
        String::new()
    } else {
        let mut s = String::from_str("\"");
        s.append(items[from].as_str());
        s.append("\"");
        proof {
            reveal_strlit("\"");
            assert(s@ =~= quoted(tail[0]));
        }
        if from + 1 == items.len() {
            proof {
                assert(tail.len() == 1);
            }
            s
        } else {
            s.append(", ");
            let rest = comma_list_from(items, from + 1);
            s.append(rest.as_str());
            proof {
                reveal_strlit(", ");
                assert(views_of(items@).skip(from as int + 1) =~= tail.drop_first());
                assert(s@ =~= comma_list(tail));
            }
            s
        }
    }
}

/// The items each wrapped in double quotes, joined with commas and wrapped
/// in square brackets.
pub fn render_list(items: &Vec<String>) -> (r: String)
    ensures
        r@ == bracketed_list(views_of(items@)),
{
    let mut s = String::from_str("[");
    let body = comma_list_from(items, 0);
    s.append(body.as_str());
    s.append("]");
    proof {
        reveal_strlit("[");
        reveal_strlit("]");
        assert(views_of(items@).skip(0) =~= views_of(items@));
        assert(s@ =~= bracketed_list(views_of(items@)));
    }
    s
}

/// True when `needle` stands somewhere in `hay` as a contiguous run.
pub open spec fn contains_seq(hay: Seq<char>, needle: Seq<char>) -> bool {
    exists|k: int|
        0 <= k && k + needle.len() <= hay.len() && #[trigger] hay.subrange(k, k + needle.len())
            == needle
}

pub proof fn lemma_contains_extend_left(pre: Seq<char>, hay: Seq<char>, needle: Seq<char>)
    requires
        contains_seq(hay, needle),
    ensures
        contains_seq(pre + hay, needle),
{
    let k = choose|k: int|
        0 <= k && k + needle.len() <= hay.len() && #[trigger] hay.subrange(k, k + needle.len())
            == needle;
    assert((pre + hay).subrange(pre.len() + k, pre.len() + k + needle.len()) =~= hay.subrange(
        k,
        k + needle.len(),
    ));
}

pub proof fn lemma_contains_extend_right(hay: Seq<char>, post: Seq<char>, needle: Seq<char>)
    requires
        contains_seq(hay, needle),
    ensures
        contains_seq(hay + post, needle),
{
    let k = choose|k: int|
        0 <= k && k + needle.len() <= hay.len() && #[trigger] hay.subrange(k, k + needle.len())
            == needle;
    assert((hay + post).subrange(k, k + needle.len()) =~= hay.subrange(k, k + needle.len()));
}

pub proof fn lemma_contains_here(pre: Seq<char>, x: Seq<char>, post: Seq<char>)
    ensures
        contains_seq(pre + x + post, x),
{
    assert((pre + x + post).subrange(pre.len() as int, pre.len() + x.len() as int) =~= x);
}

/// Every item of a rendered list stands in the rendering.
pub proof fn lemma_comma_list_contains(items: Seq<Seq<char>>, k: int)
    requires
        0 <= k < items.len(),
    ensures
        contains_seq(comma_list(items), items[k]),
    decreases k,
{
    if items.len() == 1 {
        assert(comma_list(items) =~= seq!['"'] + items[0] + seq!['"']);
        lemma_contains_here(seq!['"'], items[0], seq!['"']);
    } else if k == 0 {
        let rest = seq![',', ' '] + comma_list(items.drop_first());
        assert(comma_list(items) =~= seq!['"'] + items[0] + (seq!['"'] + rest));
        lemma_contains_here(seq!['"'], items[0], seq!['"'] + rest);
    } else {
        lemma_comma_list_contains(items.drop_first(), k - 1);
        lemma_contains_extend_left(
            quoted(items[0]) + seq![',', ' '],
            comma_list(items.drop_first()),
            items[k],
        );
        assert(comma_list(items) =~= (quoted(items[0]) + seq![',', ' ']) + comma_list(
            items.drop_first(),
        ));
    }
}

/// Every item of a bracketed list stands in the rendering.
pub proof fn lemma_bracketed_list_contains(items: Seq<Seq<char>>, k: int)
    requires
        0 <= k < items.len(),
    ensures
        contains_seq(bracketed_list(items), items[k]),
{
    lemma_comma_list_contains(items, k);
    lemma_contains_extend_left(seq!['['], comma_list(items), items[k]);
    lemma_contains_extend_right(seq!['['] + comma_list(items), seq![']'], items[k]);
    assert(bracketed_list(items) =~= (seq!['['] + comma_list(items)) + seq![']']);
}

} // verus!
