//! The domain names that a certificate can be ordered for.

use vstd::prelude::*;

use crate::net::{ip, parse_ip};
use crate::text::{
    all_ascii, ascii_lower, ascii_lower_char, char_is_ascii_alphanumeric, chars_of,
    is_ascii_alphanumeric, is_whitespace, lemma_split_keeps_chars, split, split_text, starts_with, text_is_ascii, texts, to_ascii_lower, trim, trim_end_char, trimmed,
    trimmed_end_char,
};

verus! {

pub open spec fn is_label_char(c: char) -> bool {
    is_ascii_alphanumeric(c) || c == '-'
}

/// What is wrong with one label of a domain name, if anything.
pub open spec fn label_error(label: Seq<char>) -> Option<Seq<char>> {
    if label.len() == 0 || label.len() > 63 {
        Some("DNS labels must contain between 1 and 63 characters"@)
    } else if label[0] == '-' || label.last() == '-' {
        Some("DNS labels must not start or end with '-'"@)
    } else if exists|i: int| 0 <= i < label.len() && !is_label_char(#[trigger] label[i]) {
        Some("DNS labels may contain only ASCII letters, digits and '-'"@)
    } else {
        None
    }
}

/// What is wrong with the first bad label among the first `n`.
pub open spec fn first_label_error(labels: Seq<Seq<char>>, n: int) -> Option<Seq<char>>
    decreases n,
{
    if n <= 0 {
        None
    } else {
        match first_label_error(labels, n - 1) {
            Some(reason) => Some(reason),
            None => label_error(labels[n - 1]),
        }
    }
}

/// A domain name without surrounding white space and final dots, in lower case.
pub open spec fn canonical_domain(domain: Seq<char>) -> Seq<char> {
    ascii_lower(trim_end_char(trim(domain), '.'))
}

/// What is wrong with a domain name in canonical form, if anything.
pub open spec fn domain_error(domain: Seq<char>) -> Option<Seq<char>> {
    if domain.len() == 0 {
        Some("domain must not be empty"@)
    } else if "*."@.is_prefix_of(domain) {
        Some("wildcard domains require DNS-01 and are not supported by built-in HTTP-01"@)
    } else if domain.len() > 253 || !all_ascii(domain) {
        Some("domain must be an ASCII DNS name no longer than 253 characters"@)
    } else if ip(domain) is Some {
        Some("IP identifiers are not supported by built-in ACME"@)
    } else {
        first_label_error(split(domain, '.'), split(domain, '.').len() as int)
    }
}

/// The name under which a domain is managed, or why it cannot be.
pub open spec fn domain_result(domain: Seq<char>) -> Result<Seq<char>, Seq<char>> {
    match domain_error(canonical_domain(domain)) {
        Some(reason) => Err(reason),
        None => Ok(canonical_domain(domain)),
    }
}

fn check_label(label: &str) -> (r: Option<&'static str>)
    ensures
        match r {
            Some(reason) => label_error(label@) == Some(reason@),
            None => label_error(label@) is None,
        },
{
    let v = chars_of(label);
    if v.len() == 0 || v.len() > 63 {
        return Some("DNS labels must contain between 1 and 63 characters");
    }
    if v[0] == '-' || v[v.len() - 1] == '-' {
        return Some("DNS labels must not start or end with '-'");
    }
    let mut i: usize = 0;
    while i < v.len()
        invariant
            i <= v@.len(),
            v@ == label@,
            0 < v@.len() <= 63,
            v@[0] != '-' && v@.last() != '-',
            forall|j: int| 0 <= j < i ==> is_label_char(#[trigger] v@[j]),
        decreases v@.len() - i,
    {
        if !(char_is_ascii_alphanumeric(v[i]) || v[i] == '-') {
            assert(!is_label_char(label@[i as int]));
            return Some("DNS labels may contain only ASCII letters, digits and '-'");
        }
        i += 1;
    }
    None
}

proof fn lemma_first_label_error_stays(labels: Seq<Seq<char>>, n: int, m: int)
    requires
        first_label_error(labels, n) is Some,
        n <= m,
    ensures
        first_label_error(labels, m) == first_label_error(labels, n),
    decreases m - n,
{
    if n < m {
        lemma_first_label_error_stays(labels, n, m - 1);
    }
}

pub fn normalize_domain(domain: &str) -> (r: Result<String, &'static str>)
    ensures
        match r {
            Ok(name) => domain_result(domain@) == Ok::<Seq<char>, Seq<char>>(name@),
            Err(reason) => domain_result(domain@) == Err::<Seq<char>, Seq<char>>(reason@),
        },
{
    let name = to_ascii_lower(&trimmed_end_char(&trimmed(domain), '.'));
    let length: usize = chars_of(&name).len();
    if length == 0 {
        return Err("domain must not be empty");
    }
    if starts_with(&name, "*.") {
        return Err("wildcard domains require DNS-01 and are not supported by built-in HTTP-01");
    }
    if length > 253 || !text_is_ascii(&name) {
        return Err("domain must be an ASCII DNS name no longer than 253 characters");
    }
    if parse_ip(&name).is_some() {
        return Err("IP identifiers are not supported by built-in ACME");
    }
    let labels = split_text(&name, '.');
    let ghost all = split(name@, '.');
    let mut i: usize = 0;
    while i < labels.len()
        invariant
            i <= labels@.len(),
            texts(labels@) == all,
            all == split(name@, '.'),
            name@ == canonical_domain(domain@),
            0 < name@.len() <= 253,
            !"*."@.is_prefix_of(name@),
            all_ascii(name@),
            ip(name@) is None,
            first_label_error(all, i as int) is None,
        decreases labels@.len() - i,
    {
        assert(all[i as int] == labels@[i as int]@);
        match check_label(&labels[i]) {
            Some(reason) => {
                proof {
                    lemma_first_label_error_stays(all, i + 1, all.len() as int);
                }
                return Err(reason);
            },
            None => {},
        }
        i += 1;
    }
    Ok(name)
}

/// A managed domain is a plain DNS name: at most 253 ASCII characters in labels of letters,
/// digits and inner hyphens, no wildcard and no address.
pub proof fn law_managed_domains_are_plain(domain: Seq<char>, i: int)
    requires
        domain_result(domain) is Ok,
        0 <= i < split(domain_result(domain)->Ok_0, '.').len(),
    ensures
        0 < domain_result(domain)->Ok_0.len() <= 253,
        ip(domain_result(domain)->Ok_0) is None,
        ({
            let label = split(domain_result(domain)->Ok_0, '.')[i];
            &&& 1 <= label.len() <= 63
            &&& label[0] != '-' && label.last() != '-'
            &&& forall|j: int| 0 <= j < label.len() ==> is_label_char(#[trigger] label[j])
        }),
{
    let labels = split(domain_result(domain)->Ok_0, '.');
    lemma_no_label_error(labels, labels.len() as int, i);
}

/// Normalisation changes nothing in the name under which a domain is managed.
pub proof fn law_normalization_is_idempotent(domain: Seq<char>)
    requires
        domain_result(domain) is Ok,
    ensures
        domain_result(domain_result(domain)->Ok_0) == domain_result(domain),
{
    let name = domain_result(domain)->Ok_0;
    let bare = trim_end_char(trim(domain), '.');
    assert forall|i: int| 0 <= i < name.len() implies !is_whitespace(#[trigger] name[i]) by {
        if name[i] != '.' {
            lemma_split_keeps_chars(name, '.', i);
            let labels = split(name, '.');
            let k = choose|k: int|
                0 <= k < labels.len() && (#[trigger] labels[k]).contains(name[i]);
            law_managed_domains_are_plain(domain, k);
            let j = choose|j: int| 0 <= j < labels[k].len() && labels[k][j] == name[i];
            assert(is_label_char(labels[k][j]));
        }
    }
    assert(name[0] == name[0] && name[name.len() - 1] == name.last());
    assert(trim(name) == name);
    lemma_trim_end_char_end(trim(domain), '.');
    assert(name.last() == ascii_lower_char(bare.last()));
    assert(trim_end_char(name, '.') == name);
    assert(ascii_lower(name) =~= name);
}

proof fn lemma_trim_end_char_end(s: Seq<char>, c: char)
    ensures
        trim_end_char(s, c).len() > 0 ==> trim_end_char(s, c).last() != c,
    decreases s.len(),
{
    if s.len() > 0 && s.last() == c {
        lemma_trim_end_char_end(s.drop_last(), c);
    }
}

proof fn lemma_no_label_error(labels: Seq<Seq<char>>, n: int, i: int)
    requires
        first_label_error(labels, n) is None,
        0 <= i < n,
    ensures
        label_error(labels[i]) is None,
    decreases n,
{
    if i < n - 1 {
        lemma_no_label_error(labels, n - 1, i);
    }
}

proof fn lemma_label_errors(labels: Seq<Seq<char>>, n: int)
    requires
        0 <= n <= labels.len(),
    ensures
        first_label_error(labels, n) is None <==> forall|i: int|
            0 <= i < n ==> label_error(#[trigger] labels[i]) is None,
    decreases n,
{
    if n > 0 {
        lemma_label_errors(labels, n - 1);
        if first_label_error(labels, n) is None {
            assert(label_error(labels[n - 1]) is None);
        }
    }
}

/// A label is accepted where it has up to 63 characters, each a letter, a digit or a hyphen, with a
/// hyphen at neither end.
pub proof fn law_labels(label: Seq<char>)
    ensures
        label_error(label) is None <==> {
            &&& 1 <= label.len() <= 63
            &&& label[0] != '-' && label.last() != '-'
            &&& forall|i: int|
                0 <= i < label.len() ==> {
                    let c = #[trigger] label[i];
                    'a' <= c <= 'z' || 'A' <= c <= 'Z' || '0' <= c <= '9' || c == '-'
                }
        },
{
    if label_error(label) is None {
        assert forall|i: int| 0 <= i < label.len() implies {
            let c = #[trigger] label[i];
            'a' <= c <= 'z' || 'A' <= c <= 'Z' || '0' <= c <= '9' || c == '-'
        } by {
            assert(is_label_char(label[i]));
        }
    }
    if forall|i: int|
        0 <= i < label.len() ==> {
            let c = #[trigger] label[i];
            'a' <= c <= 'z' || 'A' <= c <= 'Z' || '0' <= c <= '9' || c == '-'
        } {
        assert(forall|i: int| 0 <= i < label.len() ==> is_label_char(#[trigger] label[i]));
    }
}

/// A domain is managed under its name without surrounding white space and final dots, in lower
/// case, exactly where that is a plain DNS name.
pub proof fn law_plain_domains_are_accepted(domain: Seq<char>)
    ensures
        ({
            let name = ascii_lower(trim_end_char(trim(domain), '.'));
            let r = domain_result(domain);
            &&& r is Ok <==> {
                &&& 1 <= name.len() <= 253
                &&& !"*."@.is_prefix_of(name)
                &&& forall|i: int| 0 <= i < name.len() ==> (#[trigger] name[i]) as u32 <= 0x7F
                &&& ip(name) is None
                &&& forall|i: int|
                    0 <= i < split(name, '.').len() ==> label_error(#[trigger] split(name, '.')[i]) is None
            }
            &&& r matches Ok(managed) ==> managed == name
            &&& name.len() == 0 ==> r == Err::<Seq<char>, Seq<char>>("domain must not be empty"@)
            &&& "*."@.is_prefix_of(name) && name.len() > 0 ==> r == Err::<Seq<char>, Seq<char>>(
                "wildcard domains require DNS-01 and are not supported by built-in HTTP-01"@,
            )
            &&& !"*."@.is_prefix_of(name) && name.len() > 253 ==> r == Err::<Seq<char>, Seq<char>>(
                "domain must be an ASCII DNS name no longer than 253 characters"@,
            )
            &&& 1 <= name.len() <= 253 && !"*."@.is_prefix_of(name) && all_ascii(name) && ip(
                name,
            ) is Some ==> r == Err::<Seq<char>, Seq<char>>(
                "IP identifiers are not supported by built-in ACME"@,
            )
        }),
{
    let name = ascii_lower(trim_end_char(trim(domain), '.'));
    lemma_label_errors(split(name, '.'), split(name, '.').len() as int);
    if all_ascii(name) {
        assert forall|i: int| 0 <= i < name.len() implies (#[trigger] name[i]) as u32 <= 0x7F by {
            assert(crate::text::is_ascii_char(name[i]));
        }
    }
    if forall|i: int| 0 <= i < name.len() ==> (#[trigger] name[i]) as u32 <= 0x7F {
        assert(all_ascii(name));
    }
}

} // verus!
