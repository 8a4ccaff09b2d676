use vstd::prelude::*;

verus! {

/// Character-wise equality of two string slices.
pub fn str_eq(a: &str, b: &str) -> (r: bool)
    ensures
        r == (a@ == b@),
{
    let la = a.unicode_len();
    let lb = b.unicode_len();
    if la != lb {
        return false;
    }
    let mut i: usize = 0;
    while i < la
        invariant
            la == a@.len(),
            lb == b@.len(),
            la == lb,
            i <= la,
            forall|j: int| 0 <= j < i ==> a@[j] == b@[j],
        decreases la - i,
    {
        if a.get_char(i) != b.get_char(i) {
            return false;
        }
        i = i + 1;
    }
    assert(a@ =~= b@);
    true
}

} // verus!

verus! {

/// The characters of `s` before its first `sep` (all of `s` if none).
pub open spec fn prefix_until(s: Seq<char>, sep: char) -> Seq<char>
    decreases s.len(),
{
    if s.len() == 0 || s[0] == sep {
        Seq::empty()
    } else {
        seq![s[0]] + prefix_until(s.drop_first(), sep)
    }
}

/// The `n`-th field (from zero) of `s` split at every `sep`, as
/// `str::split` yields them; `None` when `s` has fewer than `n + 1` fields.
pub open spec fn split_field(s: Seq<char>, sep: char, n: nat) -> Option<Seq<char>>
    decreases s.len(),
{
    if n == 0 {
        Some(prefix_until(s, sep))
    } else if s.len() == 0 {
        None
    } else if s[0] == sep {
        split_field(s.drop_first(), sep, (n - 1) as nat)
    } else {
        split_field(s.drop_first(), sep, n)
    }
}

/// The `n`-th field of `s` split at `sep`.
pub fn nth_field<'a>(s: &'a str, sep: char, n: usize) -> (r: Option<&'a str>)
    ensures
        r is Some <==> split_field(s@, sep, n as nat) is Some,
        r matches Some(f) ==> Some(f@) == split_field(s@, sep, n as nat),
{
    let len = s.unicode_len();
    let mut i: usize = 0;
    let mut k: usize = 0;
    let mut start: usize = 0;
    assert(s@.skip(0) =~= s@);
    assert(s@.subrange(0, 0) + prefix_until(s@, sep) =~= prefix_until(s@, sep));
    while i < len
        invariant
            len == s@.len(),
            start <= i <= len,
            k <= n,
            k < n ==> split_field(s@, sep, n as nat) == split_field(s@.skip(i as int), sep, (n - k) as nat),
            k == n ==> split_field(s@, sep, n as nat) == Some(
                s@.subrange(start as int, i as int) + prefix_until(s@.skip(i as int), sep),
            ),
        decreases len - i,
    {
        let c = s.get_char(i);
        let ghost rest = s@.skip(i as int);
        assert(rest.drop_first() =~= s@.skip(i + 1));
        assert(rest[0] == c);
        if c == sep {
            if k == n {
                assert(prefix_until(rest, sep) =~= Seq::<char>::empty());
                assert(s@.subrange(start as int, i as int) + Seq::<char>::empty() =~= s@.subrange(start as int, i as int));
                return Some(s.substring_char(start, i));
            }
            k = k + 1;
            start = i + 1;
            if k == n {
                assert(s@.subrange(start as int, (i + 1) as int) =~= Seq::<char>::empty());
                assert(Seq::<char>::empty() + prefix_until(s@.skip(i + 1), sep) =~= prefix_until(s@.skip(i + 1), sep));
            }
        } else {
            if k == n {
                assert(s@.subrange(start as int, i as int) + prefix_until(rest, sep) =~= s@.subrange(start as int, (i + 1) as int) + prefix_until(s@.skip(i + 1), sep));
            }
        }
        i = i + 1;
    }
    assert(s@.skip(len as int) =~= Seq::<char>::empty());
    if k == n {
        assert(s@.subrange(start as int, len as int) + prefix_until(s@.skip(len as int), sep) =~= s@.subrange(start as int, len as int));
        Some(s.substring_char(start, len))
    } else {
        None
    }
}

} // verus!

verus! {

/// A string with an `n`-th field also has every earlier field.
pub proof fn lemma_split_field_earlier(s: Seq<char>, sep: char, n: nat, m: nat)
    requires
        m <= n,
        split_field(s, sep, n) is Some,
    ensures
        split_field(s, sep, m) is Some,
    decreases s.len(),
{
    if m == 0 || n == m {
    } else if s.len() == 0 {
    } else if s[0] == sep {
        lemma_split_field_earlier(s.drop_first(), sep, (n - 1) as nat, (m - 1) as nat);
    } else {
        lemma_split_field_earlier(s.drop_first(), sep, n, m);
    }
}

} // verus!

verus! {

/// `pat` occurs in `s` at position `i`.
pub open spec fn occurs_at(s: Seq<char>, pat: Seq<char>, i: int) -> bool {
    0 <= i && i + pat.len() <= s.len() && s.subrange(i, i + pat.len()) == pat
}

/// `pat` occurs somewhere in `s`.
pub open spec fn contains_text(s: Seq<char>, pat: Seq<char>) -> bool {
    exists|i: int| occurs_at(s, pat, i)
}

/// Whether `pat` occurs in `s`.
pub fn str_contains(s: &str, pat: &str) -> (r: bool)
    ensures
        r == contains_text(s@, pat@),
{
    let n = s.unicode_len();
    let m = pat.unicode_len();
    if m > n {
        assert forall|i: int| !occurs_at(s@, pat@, i) by {}
        return false;
    }
    let mut i: usize = 0;
    while i <= n - m
        invariant
            n == s@.len(),
            m == pat@.len(),
            m <= n,
            i <= n - m + 1,
            forall|j: int| 0 <= j < i ==> !occurs_at(s@, pat@, j),
        decreases n - m + 1 - i,
    {
        let mut k: usize = 0;
        let mut same = true;
        while k < m
            invariant
                n == s@.len(),
                m == pat@.len(),
                i + m <= n,
                k <= m,
                same == forall|t: int| 0 <= t < k ==> s@[i + t] == pat@[t],
            decreases m - k,
        {
            if s.get_char(i + k) != pat.get_char(k) {
                same = false;
            }
            k = k + 1;
        }
        if same {
            assert(s@.subrange(i as int, i + m) =~= pat@);
            assert(occurs_at(s@, pat@, i as int));
            return true;
        }
        assert(!occurs_at(s@, pat@, i as int)) by {
            if occurs_at(s@, pat@, i as int) {
                let t = choose|t: int| 0 <= t < m && s@[i + t] != pat@[t];
                assert(s@.subrange(i as int, i + m)[t] == s@[i + t]);
            }
        }
        i = i + 1;
    }
    assert forall|j: int| !occurs_at(s@, pat@, j) by {
        if 0 <= j < i {
        }
    }
    false
}

/// The first line of `s` as `str::lines` yields it: the text before the
/// first line feed, without a carriage return that ends it; `None` for the
/// empty string.
pub open spec fn first_line(s: Seq<char>) -> Option<Seq<char>> {
    if s.len() == 0 {
        None
    } else {
        let p = prefix_until(s, '\n');
        if p.len() < s.len() && p.len() > 0 && p.last() == '\r' {
            Some(p.drop_last())
        } else {
            Some(p)
        }
    }
}

pub(crate) proof fn lemma_prefix_until_props(s: Seq<char>, sep: char)
    ensures
        prefix_until(s, sep).len() <= s.len(),
        prefix_until(s, sep) == s.subrange(0, prefix_until(s, sep).len() as int),
        prefix_until(s, sep).len() < s.len() ==> s[prefix_until(s, sep).len() as int] == sep,
        forall|i: int| 0 <= i < prefix_until(s, sep).len() ==> s[i] != sep,
    decreases s.len(),
{
    if s.len() > 0 && s[0] != sep {
        lemma_prefix_until_props(s.drop_first(), sep);
        let p = prefix_until(s.drop_first(), sep);
        assert(prefix_until(s, sep) =~= s.subrange(0, p.len() as int + 1));
        assert forall|i: int| 0 <= i < prefix_until(s, sep).len() implies s[i] != sep by {
            if i > 0 {
                assert(s[i] == s.drop_first()[i - 1]);
            }
        }
    }
}

/// The first line of `s`, as `s.lines().next()` gives it.
pub fn first_line_of(s: &str) -> (r: Option<&str>)
    ensures
        r is Some <==> first_line(s@) is Some,
        r matches Some(l) ==> Some(l@) == first_line(s@),
{
    let n = s.unicode_len();
    if n == 0 {
        return None;
    }
    proof {
        lemma_prefix_until_props(s@, '\n');
    }
    let mut i: usize = 0;
    while i < n
        invariant
            n == s@.len(),
            i <= n,
            forall|j: int| 0 <= j < i ==> s@[j] != '\n',
        ensures
            i <= n,
            i < n ==> s@[i as int] == '\n',
            forall|j: int| 0 <= j < i ==> s@[j] != '\n',
        decreases n - i,
    {
        if s.get_char(i) == '\n' {
            break;
        }
        i = i + 1;
    }
    let ghost p = prefix_until(s@, '\n');
    assert(p.len() == i) by {
        if p.len() < i {
            assert(s@[p.len() as int] == '\n');
        }
        if p.len() > i {
            assert(s@[i as int] != '\n');
        }
    }
    if i < n && i > 0 && s.get_char(i - 1) == '\r' {
        assert(p.drop_last() =~= s@.subrange(0, i - 1));
        Some(s.substring_char(0, i - 1))
    } else {
        Some(s.substring_char(0, i))
    }
}

/// The decimal digits of `n`, most significant first, without leading zeros
/// (`0` for zero).
pub open spec fn decimal_text(n: nat) -> Seq<char>
    decreases n,
{
    if n < 10 {
        seq![(0x30 + n) as char]
    } else {
        decimal_text(n / 10) + seq![(0x30 + n % 10) as char]
    }
}

fn digit_str(d: u64) -> (r: &'static str)
    requires
        d < 10,
    ensures
        r@ == seq![(0x30 + d) as char],
{
    proof {
        reveal_strlit("0");
        reveal_strlit("1");
        reveal_strlit("2");
        reveal_strlit("3");
        reveal_strlit("4");
        reveal_strlit("5");
        reveal_strlit("6");
        reveal_strlit("7");
        reveal_strlit("8");
        reveal_strlit("9");
    }
    let r = if d == 0 {
        "0"
    } else if d == 1 {
        "1"
    } else if d == 2 {
        "2"
    } else if d == 3 {
        "3"
    } else if d == 4 {
        "4"
    } else if d == 5 {
        "5"
    } else if d == 6 {
        "6"
    } else if d == 7 {
        "7"
    } else if d == 8 {
        "8"
    } else {
        "9"
    };
    assert(r@ =~= seq![(0x30 + d) as char]);
    r
}

/// Appends the decimal text of `n` to `out`.
pub fn push_decimal(out: &mut String, n: u64)
    ensures
        final(out)@ == old(out)@ + decimal_text(n as nat),
    decreases n,
{
    if n < 10 {
        out.append(digit_str(n));
    } else {
        push_decimal(out, n / 10);
        out.append(digit_str(n % 10));
        assert(final(out)@ =~= old(out)@ + decimal_text(n as nat));
    }
}

/// The decimal text of `n`, as `n.to_string()` gives it.
pub fn decimal(n: u64) -> (r: String)
    ensures
        r@ == decimal_text(n as nat),
{
    let mut s = String::new();
    push_decimal(&mut s, n);
    assert(s@ =~= decimal_text(n as nat));
    s
}

} // verus!
