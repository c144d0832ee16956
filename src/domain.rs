use vstd::prelude::*;

verus! {

/// A lowercase ASCII letter.
pub open spec fn is_lower_alpha(c: char) -> bool {
    'a' <= c && c <= 'z'
}

/// A character that may stand inside a label: lowercase letter or digit.
pub open spec fn is_lower_alnum(c: char) -> bool {
    is_lower_alpha(c) || ('0' <= c && c <= '9')
}

/// A character that may appear in a host name at all.
pub open spec fn is_host_char(c: char) -> bool {
    is_lower_alnum(c) || c == '-' || c == '.'
}

/// One or more labels joined by dots, where a label is `[a-z0-9]+(-[a-z0-9]+)*`.
///
/// Said character by character: only letters, digits, `-` and `.`, the first
/// and last characters are letters or digits, and every `-` or `.` is followed
/// by a letter or digit (so no label is empty, and none starts or ends with `-`
/// or holds `--`).
pub open spec fn is_dotted_labels(p: Seq<char>) -> bool {
    &&& p.len() > 0
    &&& is_lower_alnum(p[0])
    &&& is_lower_alnum(p[p.len() - 1])
    &&& forall|i: int| 0 <= i < p.len() ==> is_host_char(#[trigger] p[i])
    &&& forall|i: int|
        0 <= i < p.len() - 1 && !is_lower_alnum(#[trigger] p[i]) ==> is_lower_alnum(p[i + 1])
}

/// The top-level label: two or more lowercase letters.
pub open spec fn is_top_level_label(t: Seq<char>) -> bool {
    &&& t.len() >= 2
    &&& forall|i: int| 0 <= i < t.len() ==> is_lower_alpha(#[trigger] t[i])
}

/// The shape of a host name, `^([a-z0-9]+(-[a-z0-9]+)*\.)+[a-z]{2,}$`: dotted
/// labels, a dot, and a top-level label of at least two letters.
pub open spec fn is_domain_name(s: Seq<char>) -> bool {
    exists|k: int|
        0 < k < s.len() && #[trigger] s[k] == '.' && is_dotted_labels(s.take(k))
            && is_top_level_label(s.skip(k + 1))
}

/// Only ASCII characters can form a host name.
proof fn lemma_domain_name_is_ascii(s: Seq<char>)
    requires
        is_domain_name(s),
    ensures
        vstd::utf8::is_ascii_chars(s),
{
    let k = choose|k: int|
        0 < k < s.len() && #[trigger] s[k] == '.' && is_dotted_labels(s.take(k))
            && is_top_level_label(s.skip(k + 1));
    assert forall|i: int| 0 <= i < s.len() implies '\0' <= #[trigger] s[i] <= '\u{7f}' by {
        if i < k {
            assert(s.take(k)[i] == s[i]);
        } else if i > k {
            assert(s.skip(k + 1)[i - k - 1] == s[i]);
        }
    }
}

/// Where `k` is the last dot of `s`, the host-name shape is decided by the
/// two sides of that dot.
proof fn lemma_split_at_last_dot(s: Seq<char>, k: int)
    requires
        0 <= k < s.len(),
        s[k] == '.',
        forall|j: int| k < j < s.len() ==> #[trigger] s[j] != '.',
    ensures
        is_domain_name(s) <==> (0 < k && is_dotted_labels(s.take(k)) && is_top_level_label(
            s.skip(k + 1),
        )),
{
    if is_domain_name(s) {
        let k2 = choose|k2: int|
            0 < k2 < s.len() && #[trigger] s[k2] == '.' && is_dotted_labels(s.take(k2))
                && is_top_level_label(s.skip(k2 + 1));
        if k2 < k {
            assert(s.skip(k2 + 1)[k - k2 - 1] == s[k]);
        }
        assert(k2 == k);
    }
    if 0 < k && is_dotted_labels(s.take(k)) && is_top_level_label(s.skip(k + 1)) {
        assert(s[k] == '.');
    }
}

/// The character at position `i` of an ASCII string, read as a byte.
fn byte_at(s: &str, i: usize) -> (b: u8)
    requires
        s.is_ascii(),
        i < s@.len(),
    ensures
        b as int == s@[i as int] as int,
{
    let b = s.get_ascii(i);
    assert('\0' <= s@[i as int] <= '\u{7f}');
    b
}

/// Whether `s` has the shape of a host name: one or more dot-terminated labels
/// of lowercase letters, digits and inner hyphens, then a top-level label of at
/// least two lowercase letters.
pub fn is_valid_domain(s: &str) -> (r: bool)
    ensures
        r == is_domain_name(s@),
{
    if !s.is_ascii() {
        proof {
            if is_domain_name(s@) {
                lemma_domain_name_is_ascii(s@);
            }
        }
        return false;
    }
    let n = s.unicode_len();
    // find the last dot
    let mut k: usize = n;
    let mut j: usize = n;
    while j > 0
        invariant
            s.is_ascii(),
            n == s@.len(),
            j <= n,
            k == n || (j <= k < n && s@[k as int] == '.'),
            forall|m: int| j <= m < n && (k == n || m > k) ==> #[trigger] s@[m] != '.',
        decreases j,
    {
        j = j - 1;
        if k == n && byte_at(s, j) == 46 {
            k = j;
        }
    }
    if k == n {
        assert(!is_domain_name(s@)) by {
            if is_domain_name(s@) {
                let k2 = choose|k2: int|
                    0 < k2 < s@.len() && #[trigger] s@[k2] == '.' && is_dotted_labels(s@.take(k2))
                        && is_top_level_label(s@.skip(k2 + 1));
            }
        }
        return false;
    }
    proof {
        lemma_split_at_last_dot(s@, k as int);
    }
    if k == 0 || n - k - 1 < 2 {
        return false;
    }
    let ghost top = s@.skip(k + 1);
    // the top-level label: letters only
    let mut i: usize = k + 1;
    while i < n
        invariant
            s.is_ascii(),
            n == s@.len(),
            k < i <= n,
            top == s@.skip(k + 1),
            is_domain_name(s@) <==> (0 < k && is_dotted_labels(s@.take(k as int))
                && is_top_level_label(s@.skip(k + 1))),
            forall|m: int| 0 <= m < i - k - 1 ==> is_lower_alpha(#[trigger] top[m]),
        decreases n - i,
    {
        let b = byte_at(s, i);
        if !(97 <= b && b <= 122) {
            assert(top[i - k - 1] == s@[i as int]);
            return false;
        }
        i = i + 1;
    }
    // the labels before the last dot
    let ghost p = s@.take(k as int);
    let first = byte_at(s, 0);
    let last = byte_at(s, k - 1);
    let first_ok = (97 <= first && first <= 122) || (48 <= first && first <= 57);
    let last_ok = (97 <= last && last <= 122) || (48 <= last && last <= 57);
    assert(p[0] == s@[0] && p[k - 1] == s@[k - 1]);
    if !first_ok || !last_ok {
        assert(p[0] == s@[0] && p[k - 1] == s@[k - 1]);
        return false;
    }
    let mut i: usize = 0;
    while i < k
        invariant
            s.is_ascii(),
            n == s@.len(),
            0 < k < n,
            i <= k,
            p == s@.take(k as int),
            is_top_level_label(s@.skip(k + 1)),
            is_lower_alnum(p[0]),
            is_domain_name(s@) <==> (0 < k && is_dotted_labels(s@.take(k as int))
                && is_top_level_label(s@.skip(k + 1))),
            is_lower_alnum(p[k - 1]),
            forall|m: int| 0 <= m < i ==> is_host_char(#[trigger] p[m]),
            forall|m: int| 0 <= m < i && m < k - 1 && !is_lower_alnum(#[trigger] p[m]) ==> is_lower_alnum(p[m + 1]),
        decreases k - i,
    {
        let b = byte_at(s, i);
        let alnum = (97 <= b && b <= 122) || (48 <= b && b <= 57);
        if !alnum && b != 45 && b != 46 {
            assert(p[i as int] == s@[i as int]);
            return false;
        }
        if !alnum && i + 1 < k {
            let c = byte_at(s, i + 1);
            if !((97 <= c && c <= 122) || (48 <= c && c <= 57)) {
                assert(p[i as int] == s@[i as int]);
                assert(p[i + 1] == s@[i + 1]);
                return false;
            }
        }
        i = i + 1;
    }
    true
}

} // verus!
