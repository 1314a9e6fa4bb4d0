//! A character-level model of the few text operations the installer needs:
//! whitespace, words, lines, trimming and decimal numbers.
use vstd::prelude::*;
use vstd::string::*;

verus! {

/// The Unicode `White_Space` property, which `char::is_whitespace` follows.
pub open spec fn is_space(c: char) -> bool {
    let u = c as u32;
    ||| 0x09 <= u <= 0x0D
    ||| u == 0x20
    ||| u == 0x85
    ||| u == 0xA0
    ||| u == 0x1680
    ||| 0x2000 <= u <= 0x200A
    ||| u == 0x2028
    ||| u == 0x2029
    ||| u == 0x202F
    ||| u == 0x205F
    ||| u == 0x3000
}

/// Whether `c` is white space.
pub fn char_is_space(c: char) -> (r: bool)
    ensures
        r == is_space(c),
{
    let u = c as u32;
    (0x09 <= u && u <= 0x0D) || u == 0x20 || u == 0x85 || u == 0xA0 || u == 0x1680 || (0x2000
        <= u && u <= 0x200A) || u == 0x2028 || u == 0x2029 || u == 0x202F || u == 0x205F || u
        == 0x3000
}

/// The run of non-space characters in `cur`, as a list of at most one word.
pub open spec fn pending(cur: Seq<char>) -> Seq<Seq<char>> {
    if cur.len() > 0 {
        seq![cur]
    } else {
        seq![]
    }
}

/// Splits `s` into its maximal runs of non-space characters, `cur` being the
/// part of a run that came before `s`.
pub open spec fn words_acc(s: Seq<char>, cur: Seq<char>) -> Seq<Seq<char>>
    decreases s.len(),
{
    if s.len() == 0 {
        pending(cur)
    } else if is_space(s[0]) {
        pending(cur) + words_acc(s.drop_first(), seq![])
    } else {
        words_acc(s.drop_first(), cur.push(s[0]))
    }
}

/// The words of `s`, as `str::split_whitespace` yields them.
pub open spec fn words(s: Seq<char>) -> Seq<Seq<char>> {
    words_acc(s, seq![])
}

/// The `k`-th word of `s`, or the empty text when `s` has fewer words.
pub open spec fn word_at(s: Seq<char>, k: int) -> Seq<char> {
    if 0 <= k < words(s).len() {
        words(s)[k]
    } else {
        seq![]
    }
}

/// `cur` without one trailing carriage return.
pub open spec fn strip_cr(cur: Seq<char>) -> Seq<char> {
    if cur.len() > 0 && cur.last() == '\r' {
        cur.drop_last()
    } else {
        cur
    }
}

/// Splits `s` at newlines, `cur` being the part of a line that came before `s`.
/// A line ended by a newline loses one trailing carriage return; text after the
/// last newline is a line only when it is not empty.
pub open spec fn lines_acc(s: Seq<char>, cur: Seq<char>) -> Seq<Seq<char>>
    decreases s.len(),
{
    if s.len() == 0 {
        pending(cur)
    } else if s[0] == '\n' {
        seq![strip_cr(cur)] + lines_acc(s.drop_first(), seq![])
    } else {
        lines_acc(s.drop_first(), cur.push(s[0]))
    }
}

/// The lines of `s`, as `str::lines` yields them.
pub open spec fn lines(s: Seq<char>) -> Seq<Seq<char>> {
    lines_acc(s, seq![])
}

/// The characters of `s`.
pub fn chars_of(s: &str) -> (v: Vec<char>)
    ensures
        v@ == s@,
{
    let mut v: Vec<char> = Vec::new();
    for c in it: s.chars()
        invariant
            v@ == it.seq().take(it.index() as int),
    {
        v.push(c);
    }
    v
}

/// The text of `s` between character positions `from` and `to`.
pub fn slice_string(s: &str, from: usize, to: usize) -> (r: String)
    requires
        from <= to <= s@.len(),
    ensures
        r@ == s@.subrange(from as int, to as int),
{
    s.substring_char(from, to).to_string()
}

/// The words of `s`.
pub fn words_of(s: &str) -> (out: Vec<String>)
    ensures
        out.deep_view() == words(s@),
{
    let chars = chars_of(s);
    let n = chars.len();
    let mut out: Vec<String> = Vec::new();
    let mut start: usize = 0;
    let mut in_word = false;
    assert(s@.skip(0) =~= s@);
    assert(out.deep_view() + words(s@) =~= words(s@));
    for i in 0..n
        invariant
            chars@ == s@,
            n == s@.len(),
            start <= i,
            in_word ==> start < i,
            out.deep_view() + words_acc(
                s@.skip(i as int),
                if in_word {
                    s@.subrange(start as int, i as int)
                } else {
                    seq![]
                },
            ) == words(s@),
    {
        let ghost cur = if in_word {
            s@.subrange(start as int, i as int)
        } else {
            seq![]
        };
        let ghost rest = s@.skip(i as int);
        assert(rest[0] == s@[i as int]);
        assert(rest.drop_first() =~= s@.skip(i + 1));
        let c = chars[i];
        if char_is_space(c) {
            if in_word {
                let w = slice_string(s, start, i);
                let ghost before = out.deep_view();
                out.push(w);
                assert(out.deep_view() =~= before.push(w@));
                assert(pending(cur) =~= seq![cur]);
                assert(before.push(w@) + words_acc(s@.skip(i + 1), seq![]) =~= before + (
                pending(cur) + words_acc(s@.skip(i + 1), seq![])));
                in_word = false;
            } else {
                assert(pending(cur) =~= Seq::<Seq<char>>::empty());
                assert(pending(cur) + words_acc(s@.skip(i + 1), seq![]) =~= words_acc(
                    s@.skip(i + 1),
                    seq![],
                ));
            }
        } else {
            if !in_word {
                start = i;
                in_word = true;
            }
            assert(cur.push(c) =~= s@.subrange(start as int, i + 1));
        }
    }
    assert(s@.skip(n as int) =~= Seq::<char>::empty());
    if in_word {
        let w = slice_string(s, start, n);
        let ghost before = out.deep_view();
        out.push(w);
        assert(out.deep_view() =~= before.push(w@));
    } else {
        assert(out.deep_view() + Seq::<Seq<char>>::empty() =~= out.deep_view());
    }
    out
}

/// The lines of `s`.
pub fn lines_of(s: &str) -> (out: Vec<String>)
    ensures
        out.deep_view() == lines(s@),
{
    let chars = chars_of(s);
    let n = chars.len();
    let mut out: Vec<String> = Vec::new();
    let mut start: usize = 0;
    assert(s@.skip(0) =~= s@);
    assert(s@.subrange(0, 0) =~= Seq::<char>::empty());
    assert(out.deep_view() + lines(s@) =~= lines(s@));
    for i in 0..n
        invariant
            chars@ == s@,
            n == s@.len(),
            start <= i,
            out.deep_view() + lines_acc(s@.skip(i as int), s@.subrange(start as int, i as int))
                == lines(s@),
    {
        let ghost cur = s@.subrange(start as int, i as int);
        let ghost rest = s@.skip(i as int);
        assert(rest[0] == s@[i as int]);
        assert(rest.drop_first() =~= s@.skip(i + 1));
        if chars[i] == '\n' {
            let end = if i > start && chars[i - 1] == '\r' {
                i - 1
            } else {
                i
            };
            assert(s@.subrange(start as int, end as int) =~= strip_cr(cur));
            let line = slice_string(s, start, end);
            let ghost before = out.deep_view();
            out.push(line);
            assert(out.deep_view() =~= before.push(line@));
            assert(before.push(line@) + lines_acc(s@.skip(i + 1), seq![]) =~= before + (seq![
                strip_cr(cur)] + lines_acc(s@.skip(i + 1), seq![])));
            start = i + 1;
            assert(s@.subrange(start as int, i + 1) =~= Seq::<char>::empty());
        } else {
            assert(cur.push(chars[i as int]) =~= s@.subrange(start as int, i + 1));
        }
    }
    assert(s@.skip(n as int) =~= Seq::<char>::empty());
    if start < n {
        let line = slice_string(s, start, n);
        let ghost before = out.deep_view();
        out.push(line);
        assert(out.deep_view() =~= before.push(line@));
    } else {
        assert(out.deep_view() + Seq::<Seq<char>>::empty() =~= out.deep_view());
    }
    out
}

/// `s` without its leading white space.
pub open spec fn trim_start(s: Seq<char>) -> Seq<char>
    decreases s.len(),
{
    if s.len() > 0 && is_space(s[0]) {
        trim_start(s.drop_first())
    } else {
        s
    }
}

/// `s` without its trailing white space.
pub open spec fn trim_end(s: Seq<char>) -> Seq<char>
    decreases s.len(),
{
    if s.len() > 0 && is_space(s.last()) {
        trim_end(s.drop_last())
    } else {
        s
    }
}

/// `s` without white space at either end, as `str::trim` gives it.
pub open spec fn trim(s: Seq<char>) -> Seq<char> {
    trim_end(trim_start(s))
}

/// `s` without the newlines and carriage returns at its end.
pub open spec fn strip_eol(s: Seq<char>) -> Seq<char>
    decreases s.len(),
{
    if s.len() > 0 && (s.last() == '\n' || s.last() == '\r') {
        strip_eol(s.drop_last())
    } else {
        s
    }
}

proof fn lemma_trim_end_of_range(s: Seq<char>, i: int, j: int)
    requires
        0 <= i < j <= s.len(),
        is_space(s[j - 1]),
    ensures
        trim_end(s.subrange(i, j)) == trim_end(s.subrange(i, j - 1)),
{
    let t = s.subrange(i, j);
    assert(t.last() == s[j - 1]);
    assert(t.drop_last() =~= s.subrange(i, j - 1));
}

/// `s` without white space at either end.
pub fn trimmed(s: &str) -> (r: String)
    ensures
        r@ == trim(s@),
{
    let chars = chars_of(s);
    let n = chars.len();
    let mut i: usize = 0;
    assert(s@.skip(0) =~= s@);
    while i < n && char_is_space(chars[i])
        invariant
            chars@ == s@,
            n == s@.len(),
            i <= n,
            trim_start(s@.skip(i as int)) == trim_start(s@),
        decreases n - i,
    {
        assert(s@.skip(i as int)[0] == s@[i as int]);
        assert(s@.skip(i as int).drop_first() =~= s@.skip(i + 1));
        i = i + 1;
    }
    assert(trim_start(s@) =~= s@.subrange(i as int, n as int)) by {
        assert(s@.skip(i as int) =~= s@.subrange(i as int, n as int));
        if i < n {
            assert(s@.skip(i as int)[0] == s@[i as int]);
        }
    }
    let mut j: usize = n;
    while j > i && char_is_space(chars[j - 1])
        invariant
            chars@ == s@,
            n == s@.len(),
            i <= j <= n,
            trim_end(s@.subrange(i as int, j as int)) == trim(s@),
        decreases j,
    {
        proof {
            lemma_trim_end_of_range(s@, i as int, j as int);
        }
        j = j - 1;
    }
    proof {
        let t = s@.subrange(i as int, j as int);
        if j > i {
            assert(t.last() == s@[j - 1]);
        }
    }
    slice_string(s, i, j)
}

/// `s` without the newlines and carriage returns at its end.
pub fn without_eol(s: &str) -> (r: String)
    ensures
        r@ == strip_eol(s@),
{
    let chars = chars_of(s);
    let mut j: usize = chars.len();
    assert(s@.subrange(0, j as int) =~= s@);
    while j > 0 && (chars[j - 1] == '\n' || chars[j - 1] == '\r')
        invariant
            chars@ == s@,
            j <= s@.len(),
            strip_eol(s@.subrange(0, j as int)) == strip_eol(s@),
        decreases j,
    {
        assert(s@.subrange(0, j as int).drop_last() =~= s@.subrange(0, j - 1));
        j = j - 1;
    }
    proof {
        if j > 0 {
            assert(s@.subrange(0, j as int).last() == s@[j - 1]);
        }
    }
    slice_string(s, 0, j)
}

/// Whether `a` and `b` hold the same text.
pub fn same_text(a: &str, b: &str) -> (r: bool)
    ensures
        r == (a@ == b@),
{
    a.to_string() == b.to_string()
}

/// Whether `s` begins with `prefix`.
pub fn has_prefix(s: &str, prefix: &str) -> (r: bool)
    ensures
        r == prefix@.is_prefix_of(s@),
{
    let sc = chars_of(s);
    let pc = chars_of(prefix);
    if pc.len() > sc.len() {
        return false;
    }
    for k in 0..pc.len()
        invariant
            sc@ == s@,
            pc@ == prefix@,
            pc.len() <= sc.len(),
            forall|m: int| 0 <= m < k ==> s@[m] == prefix@[m],
    {
        if sc[k] != pc[k] {
            assert(s@.subrange(0, prefix@.len() as int)[k as int] != prefix@[k as int]);
            return false;
        }
    }
    assert(s@.subrange(0, prefix@.len() as int) =~= prefix@);
    true
}

/// Whether `s` ends with `suffix`.
pub fn has_suffix(s: &str, suffix: &str) -> (r: bool)
    ensures
        r == suffix@.is_suffix_of(s@),
{
    let sc = chars_of(s);
    let pc = chars_of(suffix);
    if pc.len() > sc.len() {
        return false;
    }
    let off = sc.len() - pc.len();
    for k in 0..pc.len()
        invariant
            sc@ == s@,
            pc@ == suffix@,
            off + pc.len() == sc.len(),
            forall|m: int| 0 <= m < k ==> s@[off + m] == suffix@[m],
    {
        if sc[off + k] != pc[k] {
            assert(s@.subrange(off as int, s@.len() as int)[k as int] != suffix@[k as int]);
            return false;
        }
    }
    assert(s@.subrange(off as int, s@.len() as int) =~= suffix@);
    true
}

/// The character of the decimal digit `d`.
pub open spec fn digit_char(d: nat) -> char {
    ((d + 48) as u32) as char
}

/// The decimal numeral of `n`, as `to_string` writes an unsigned integer.
pub open spec fn decimal(n: nat) -> Seq<char>
    decreases n,
{
    if n < 10 {
        seq![digit_char(n)]
    } else {
        decimal(n / 10).push(digit_char(n % 10))
    }
}

/// Whether `c` is one of the ASCII digits.
pub open spec fn is_digit(c: char) -> bool {
    48 <= (c as u32) <= 57
}

/// The value of a run of ASCII digits.
pub open spec fn digits_value(s: Seq<char>) -> nat
    decreases s.len(),
{
    if s.len() == 0 {
        0
    } else {
        digits_value(s.drop_last()) * 10 + ((s.last() as u32) - 48) as nat
    }
}

/// Whether every character of `s` is an ASCII digit.
pub open spec fn all_digits(s: Seq<char>) -> bool {
    forall|i: int| 0 <= i < s.len() ==> is_digit(#[trigger] s[i])
}

/// `s` without one leading `+`.
pub open spec fn unsigned_body(s: Seq<char>) -> Seq<char> {
    if s.len() > 0 && s[0] == '+' {
        s.drop_first()
    } else {
        s
    }
}

/// The number that `s` spells as an unsigned decimal, as `str::parse` reads it
/// for an unsigned integer type: an optional `+`, then one or more digits.
pub open spec fn unsigned_value(s: Seq<char>) -> Option<nat> {
    let body = unsigned_body(s);
    if body.len() > 0 && all_digits(body) {
        Some(digits_value(body))
    } else {
        None
    }
}

/// The text of one decimal digit.
fn digit_text(d: u64) -> (r: &'static str)
    requires
        d < 10,
    ensures
        r@ == seq![digit_char(d as nat)],
{
    proof {
        reveal_strlit("0");
        reveal_strlit("1");
        reveal_strlit("2");
        reveal_strlit("3");
        reveal_strlit("4");
        reveal_strlit("5");
        reveal_strlit("6");
        reveal_strlit("7");
        reveal_strlit("8");
        reveal_strlit("9");
    }
    if d == 0 {
        "0"
    } else if d == 1 {
        "1"
    } else if d == 2 {
        "2"
    } else if d == 3 {
        "3"
    } else if d == 4 {
        "4"
    } else if d == 5 {
        "5"
    } else if d == 6 {
        "6"
    } else if d == 7 {
        "7"
    } else if d == 8 {
        "8"
    } else {
        "9"
    }
}

/// The decimal numeral of `n`.
pub fn decimal_text(n: u64) -> (r: String)
    ensures
        r@ == decimal(n as nat),
    decreases n,
{
    if n < 10 {
        digit_text(n).to_string()
    } else {
        let mut r = decimal_text(n / 10);
        r.append(digit_text(n % 10));
        r
    }
}

/// The number that `s` spells, when it is at most `max`.
pub fn parse_bounded(s: &str, max: u64) -> (r: Option<u64>)
    ensures
        r is Some <==> (unsigned_value(s@) is Some && unsigned_value(s@)->0 <= max),
        r is Some ==> r->0 == unsigned_value(s@)->0,
{
    let chars = chars_of(s);
    let n = chars.len();
    let start: usize = if n > 0 && chars[0] == '+' {
        1
    } else {
        0
    };
    let ghost body = unsigned_body(s@);
    assert(body =~= s@.subrange(start as int, n as int));
    if start == n {
        return None;
    }
    let mut acc: u64 = 0;
    let mut over = false;
    let mut k: usize = start;
    assert(body.take(0) =~= Seq::<char>::empty());
    while k < n
        invariant
            chars@ == s@,
            n == s@.len(),
            start <= k <= n,
            body == s@.subrange(start as int, n as int),
            body == unsigned_body(s@),
            forall|i: int| 0 <= i < k - start ==> is_digit(#[trigger] body[i]),
            !over ==> acc == digits_value(body.take(k - start)) && acc <= max,
            over ==> digits_value(body.take(k - start)) > max,
        decreases n - k,
    {
        let c = chars[k];
        let u = c as u32;
        assert(body[k - start] == c);
        if u < 48 || u > 57 {
            assert(!is_digit(c));
            assert(!is_digit(body[k - start]));
            assert(!all_digits(body));
            return None;
        }
        proof {
            let t = body.take(k - start + 1);
            assert(t.drop_last() =~= body.take(k - start));
            assert(t.last() == c);
        }
        if !over {
            let d = (u - 48) as u64;
            let next = match acc.checked_mul(10) {
                Some(m) => m.checked_add(d),
                None => None,
            };
            match next {
                Some(v) => {
                    if v > max {
                        over = true;
                    } else {
                        acc = v;
                    }
                },
                None => {
                    over = true;
                },
            }
        }
        k = k + 1;
    }
    assert(body.take(n - start) =~= body);
    if over {
        None
    } else {
        Some(acc)
    }
}

/// The parts of `parts` written one after another with `sep` between them.
pub open spec fn join(parts: Seq<Seq<char>>, sep: Seq<char>) -> Seq<char>
    decreases parts.len(),
{
    if parts.len() == 0 {
        seq![]
    } else if parts.len() == 1 {
        parts[0]
    } else {
        join(parts.drop_last(), sep) + sep + parts.last()
    }
}

/// The parts written one after another with `sep` between them.
pub fn join_text(parts: &Vec<String>, sep: &str) -> (r: String)
    ensures
        r@ == join(parts.deep_view(), sep@),
{
    let mut r = String::new();
    let ghost dv = parts.deep_view();
    for i in 0..parts.len()
        invariant
            dv == parts.deep_view(),
            r@ == join(dv.take(i as int), sep@),
    {
        assert(dv.take(i + 1).drop_last() =~= dv.take(i as int));
        assert(dv.take(i + 1).last() == parts[i as int]@);
        if i > 0 {
            r.append(sep);
        } else {
            assert(join(dv.take(0), sep@) =~= Seq::<char>::empty());
        }
        r.append(parts[i].as_str());
    }
    assert(dv.take(parts.len() as int) =~= dv);
    r
}

/// Whether `v` holds the text `s`.
pub fn contains_text(v: &Vec<String>, s: &str) -> (r: bool)
    ensures
        r == v.deep_view().contains(s@),
{
    let ghost dv = v.deep_view();
    for i in 0..v.len()
        invariant
            dv == v.deep_view(),
            forall|j: int| 0 <= j < i ==> dv[j] != s@,
    {
        if same_text(v[i].as_str(), s) {
            assert(dv[i as int] == s@);
            return true;
        }
    }
    false
}

/// Whether `s` can stand as one line: it holds no newline and does not end
/// with a carriage return.
pub open spec fn fits_one_line(s: Seq<char>) -> bool {
    &&& forall|i: int| 0 <= i < s.len() ==> s[i] != '\n'
    &&& !(s.len() > 0 && s.last() == '\r')
}

pub proof fn lemma_lines_acc_line(x: Seq<char>, rest: Seq<char>, cur: Seq<char>)
    requires
        forall|i: int| 0 <= i < x.len() ==> x[i] != '\n',
    ensures
        lines_acc(x + seq!['\n'] + rest, cur) == seq![strip_cr(cur + x)] + lines_acc(
            rest,
            seq![],
        ),
    decreases x.len(),
{
    let t = x + seq!['\n'] + rest;
    if x.len() == 0 {
        assert(t[0] == '\n');
        assert(t.drop_first() =~= rest);
        assert(cur + x =~= cur);
    } else {
        assert(t[0] == x[0]);
        assert(t.drop_first() =~= x.drop_first() + seq!['\n'] + rest);
        lemma_lines_acc_line(x.drop_first(), rest, cur.push(x[0]));
        assert(cur.push(x[0]) + x.drop_first() =~= cur + x);
    }
}

proof fn lemma_lines_of_joined(fs: Seq<Seq<char>>, rest: Seq<char>)
    requires
        fs.len() > 0,
        forall|k: int| 0 <= k < fs.len() ==> fits_one_line(#[trigger] fs[k]),
    ensures
        lines_acc(join(fs, seq!['\n']) + seq!['\n'] + rest, seq![]) == fs + lines_acc(
            rest,
            seq![],
        ),
    decreases fs.len(),
{
    let last = fs.last();
    assert(fits_one_line(fs[fs.len() - 1]));
    assert(strip_cr(Seq::<char>::empty() + last) =~= last);
    if fs.len() == 1 {
        lemma_lines_acc_line(fs[0], rest, seq![]);
        assert(fs =~= seq![last]);
    } else {
        let init = fs.drop_last();
        assert forall|k: int| 0 <= k < init.len() implies fits_one_line(#[trigger] init[k]) by {
            assert(init[k] == fs[k]);
        }
        let rest2 = last + seq!['\n'] + rest;
        lemma_lines_of_joined(init, rest2);
        assert(join(fs, seq!['\n']) + seq!['\n'] + rest =~= join(init, seq!['\n']) + seq![
            '\n']
            + rest2);
        lemma_lines_acc_line(last, rest, seq![]);
        assert(fs =~= init + seq![last]);
    }
}

/// Lines written one after another, each ended by a newline, are read back
/// as the same lines.
pub proof fn lemma_lines_of_newline_ended(fs: Seq<Seq<char>>)
    requires
        fs.len() > 0,
        forall|k: int| 0 <= k < fs.len() ==> fits_one_line(#[trigger] fs[k]),
    ensures
        lines(join(fs, "\n"@) + "\n"@) == fs,
{
    reveal_strlit("\n");
    assert("\n"@ =~= seq!['\n']);
    lemma_lines_of_joined(fs, seq![]);
    assert(join(fs, seq!['\n']) + seq!['\n'] + Seq::<char>::empty() =~= join(fs, seq!['\n'])
        + seq!['\n']);
    assert(lines_acc(Seq::<char>::empty(), seq![]) =~= Seq::<Seq<char>>::empty());
    assert(fs + Seq::<Seq<char>>::empty() =~= fs);
}

/// A decimal numeral is made of digits.
pub proof fn lemma_decimal_digits(n: nat)
    ensures
        all_digits(decimal(n)),
        decimal(n).len() > 0,
    decreases n,
{
    if n >= 10 {
        lemma_decimal_digits(n / 10);
        let d = decimal(n / 10);
        assert forall|i: int| 0 <= i < decimal(n).len() implies is_digit(
            #[trigger] decimal(n)[i],
        ) by {
            if i < d.len() {
                assert(decimal(n)[i] == d[i]);
            }
        }
    }
}

/// Reading a decimal numeral gives back its number.
pub proof fn lemma_decimal_value(n: nat)
    ensures
        digits_value(decimal(n)) == n,
        unsigned_value(decimal(n)) == Some(n),
    decreases n,
{
    lemma_decimal_digits(n);
    let d = decimal(n);
    if n >= 10 {
        lemma_decimal_value(n / 10);
        assert(d.drop_last() =~= decimal(n / 10));
        assert(d.last() == digit_char(n % 10));
        assert((((((n % 10) + 48) as u32) as char) as u32) == (n % 10) + 48);
        assert(digits_value(d.drop_last()) == n / 10);
        assert(((d.last() as u32) - 48) as nat == n % 10);
        assert(digits_value(d) == (n / 10) * 10 + n % 10);
    } else {
        assert(d.drop_last() =~= Seq::<char>::empty());
        assert(d.last() == digit_char(n));
        assert(((((n + 48) as u32) as char) as u32) == n + 48);
        assert(((d.last() as u32) - 48) as nat == n);
        assert(digits_value(d.drop_last()) == 0);
        assert(digits_value(d) == n);
    }
    assert(d[0] != '+') by {
        assert(is_digit(d[0]));
    }
    assert(unsigned_body(d) == d);
}

/// A decimal numeral fits on one line.
pub proof fn lemma_decimal_one_line(n: nat)
    ensures
        fits_one_line(decimal(n)),
{
    lemma_decimal_digits(n);
    let d = decimal(n);
    assert forall|i: int| 0 <= i < d.len() implies d[i] != '\n' by {
        assert(is_digit(d[i]));
    }
    assert(is_digit(d[d.len() - 1]));
}

/// Whether `w` is one word: not empty and without white space.
pub open spec fn is_word(w: Seq<char>) -> bool {
    w.len() > 0 && forall|i: int| 0 <= i < w.len() ==> !is_space(#[trigger] w[i])
}

proof fn lemma_words_acc_of_word(x: Seq<char>, cur: Seq<char>)
    requires
        forall|i: int| 0 <= i < x.len() ==> !is_space(#[trigger] x[i]),
    ensures
        words_acc(x, cur) == pending(cur + x),
    decreases x.len(),
{
    if x.len() == 0 {
        assert(cur + x =~= cur);
    } else {
        assert(!is_space(x[0]));
        lemma_words_acc_of_word(x.drop_first(), cur.push(x[0]));
        assert(cur.push(x[0]) + x.drop_first() =~= cur + x);
    }
}

proof fn lemma_words_acc_word_space(x: Seq<char>, rest: Seq<char>, cur: Seq<char>)
    requires
        forall|i: int| 0 <= i < x.len() ==> !is_space(#[trigger] x[i]),
    ensures
        words_acc(x + seq![' '] + rest, cur) == pending(cur + x) + words_acc(rest, seq![]),
    decreases x.len(),
{
    let t = x + seq![' '] + rest;
    if x.len() == 0 {
        assert(t[0] == ' ');
        assert(is_space(' '));
        assert(t.drop_first() =~= rest);
        assert(cur + x =~= cur);
    } else {
        assert(t[0] == x[0]);
        assert(!is_space(x[0]));
        assert(t.drop_first() =~= x.drop_first() + seq![' '] + rest);
        lemma_words_acc_word_space(x.drop_first(), rest, cur.push(x[0]));
        assert(cur.push(x[0]) + x.drop_first() =~= cur + x);
    }
}

proof fn lemma_words_of_joined(ws: Seq<Seq<char>>, rest: Seq<char>)
    requires
        ws.len() > 0,
        forall|k: int| 0 <= k < ws.len() ==> is_word(#[trigger] ws[k]),
    ensures
        words_acc(join(ws, seq![' ']) + seq![' '] + rest, seq![]) == ws + words_acc(rest, seq![]),
    decreases ws.len(),
{
    let last = ws.last();
    assert(is_word(ws[ws.len() - 1]));
    assert(pending(Seq::<char>::empty() + last) =~= seq![last]);
    if ws.len() == 1 {
        lemma_words_acc_word_space(ws[0], rest, seq![]);
        assert(ws =~= seq![last]);
    } else {
        let init = ws.drop_last();
        assert forall|k: int| 0 <= k < init.len() implies is_word(#[trigger] init[k]) by {
            assert(init[k] == ws[k]);
        }
        let rest2 = last + seq![' '] + rest;
        lemma_words_of_joined(init, rest2);
        assert(join(ws, seq![' ']) + seq![' '] + rest =~= join(init, seq![' ']) + seq![' ']
            + rest2);
        lemma_words_acc_word_space(last, rest, seq![]);
        assert(ws =~= init + seq![last]);
    }
}

/// Words written one after another, separated by single spaces, are read
/// back as the same words.
pub proof fn lemma_words_of_spaced(ws: Seq<Seq<char>>)
    requires
        ws.len() > 0,
        forall|k: int| 0 <= k < ws.len() ==> is_word(#[trigger] ws[k]),
    ensures
        words(join(ws, " "@)) == ws,
{
    reveal_strlit(" ");
    assert(" "@ =~= seq![' ']);
    let last = ws.last();
    assert(is_word(ws[ws.len() - 1]));
    if ws.len() == 1 {
        lemma_words_acc_of_word(last, seq![]);
        assert(Seq::<char>::empty() + last =~= last);
        assert(ws =~= seq![last]);
    } else {
        let init = ws.drop_last();
        assert forall|k: int| 0 <= k < init.len() implies is_word(#[trigger] init[k]) by {
            assert(init[k] == ws[k]);
        }
        lemma_words_of_joined(init, last);
        lemma_words_acc_of_word(last, seq![]);
        assert(Seq::<char>::empty() + last =~= last);
        assert(ws =~= init + seq![last]);
    }
}

proof fn lemma_words_acc_are_words(s: Seq<char>, cur: Seq<char>)
    requires
        forall|i: int| 0 <= i < cur.len() ==> !is_space(#[trigger] cur[i]),
    ensures
        forall|k: int| 0 <= k < words_acc(s, cur).len() ==> is_word(#[trigger] words_acc(s, cur)[k]),
    decreases s.len(),
{
    if cur.len() > 0 {
        assert(is_word(cur));
        assert(pending(cur) =~= seq![cur]);
    }
    if s.len() == 0 {
        assert(words_acc(s, cur) == pending(cur));
        assert forall|k: int| 0 <= k < pending(cur).len() implies is_word(
            #[trigger] pending(cur)[k],
        ) by {
            assert(pending(cur)[k] == cur);
        }
    } else if is_space(s[0]) {
        lemma_words_acc_are_words(s.drop_first(), seq![]);
        let a = pending(cur);
        let b = words_acc(s.drop_first(), seq![]);
        assert(words_acc(s, cur) == a + b);
        assert forall|k: int| 0 <= k < (a + b).len() implies is_word(#[trigger] (a + b)[k]) by {
            if k >= a.len() {
                assert((a + b)[k] == b[k - a.len()]);
            } else {
                assert((a + b)[k] == cur);
            }
        }
    } else {
        let c2 = cur.push(s[0]);
        assert forall|i: int| 0 <= i < c2.len() implies !is_space(#[trigger] c2[i]) by {
            if i < cur.len() {
                assert(c2[i] == cur[i]);
            }
        }
        lemma_words_acc_are_words(s.drop_first(), c2);
        assert(words_acc(s, cur) == words_acc(s.drop_first(), c2));
    }
}

/// Every word of a text is one word.
pub proof fn lemma_words_are_words(s: Seq<char>)
    ensures
        forall|k: int| 0 <= k < words(s).len() ==> is_word(#[trigger] words(s)[k]),
{
    lemma_words_acc_are_words(s, seq![]);
}

} // verus!
