//! Which certificate a client gets.

use std::sync::Arc;

use rustls::sign::CertifiedKey;

use vstd::prelude::*;

use crate::text::{
    ascii_lower, chars_of, opt_str, opt_text, text_between, to_ascii_lower, trim_end_char,
    trimmed_end_char,
};

use super::certificate::CertifiedModel;
use super::store::{opt_certified, CertificateIndex, IndexModel};

verus! {

/// Where the first dot stands, from position `i` on.
pub open spec fn first_dot(name: Seq<char>, i: int) -> Option<int>
    decreases name.len() - i,
{
    if i < 0 || i >= name.len() {
        None
    } else if name[i] == '.' {
        Some(i)
    } else {
        first_dot(name, i + 1)
    }
}

/// The domain below which a name has one label.
pub open spec fn parent_domain(name: Seq<char>) -> Option<Seq<char>> {
    match first_dot(name, 0) {
        Some(i) => Some(name.skip(i + 1)),
        None => None,
    }
}

pub fn wildcard_suffix(name: &str) -> (r: Option<String>)
    ensures
        opt_text(r) == parent_domain(name@),
{
    let v = chars_of(name);
    let n: usize = v.len();
    let mut i: usize = 0;
    while i < n
        invariant
            i <= n,
            n == v@.len(),
            v@ == name@,
            first_dot(name@, 0) == first_dot(name@, i as int),
        decreases n - i,
    {
        if v[i] == '.' {
            let suffix = text_between(&v, i + 1, n);
            assert(suffix@ =~= name@.skip(i + 1));
            return Some(suffix);
        }
        i += 1;
    }
    None
}

/// The certificate that covers `name` by a wildcard.
pub open spec fn wildcard_certified(index: IndexModel, name: Seq<char>) -> Option<CertifiedModel> {
    match parent_domain(name) {
        Some(domain) => if index.wildcard.contains_key(domain) {
            Some(index.wildcard[domain])
        } else {
            None
        },
        None => None,
    }
}

/// The certificate that a client gets: for the name that it asks for, then for a wildcard over that
/// name, then the default.
pub open spec fn resolution(index: IndexModel, server_name: Option<Seq<char>>) -> Option<
    CertifiedModel,
> {
    match server_name {
        None => index.default,
        Some(server_name) => {
            let name = ascii_lower(trim_end_char(server_name, '.'));
            if index.exact.contains_key(name) {
                Some(index.exact[name])
            } else if wildcard_certified(index, name) is Some {
                wildcard_certified(index, name)
            } else {
                index.default
            }
        },
    }
}

pub fn resolve_wildcard(index: &CertificateIndex, server_name: &str) -> (r: Option<
    Arc<CertifiedKey>,
>)
    ensures
        opt_certified(r) == wildcard_certified(index@, server_name@),
{
    match wildcard_suffix(server_name) {
        Some(domain) => index.wildcard_certificate(&domain),
        None => None,
    }
}

/// The certificate for a client that asks for `server_name`.
pub fn resolve(index: &CertificateIndex, server_name: Option<&str>) -> (r: Option<
    Arc<CertifiedKey>,
>)
    ensures
        opt_certified(r) == resolution(index@, opt_str(server_name)),
{
    let server_name = match server_name {
        Some(server_name) => server_name,
        None => {
            return index.default_certificate();
        },
    };
    let name = to_ascii_lower(&trimmed_end_char(server_name, '.'));
    match index.exact_certificate(&name) {
        Some(key) => {
            return Some(key);
        },
        None => {},
    }
    match resolve_wildcard(index, &name) {
        Some(key) => {
            return Some(key);
        },
        None => {},
    }
    index.default_certificate()
}

/// A certificate for the exact name is preferred to a wildcard.
pub proof fn law_exact_beats_wildcard(index: IndexModel, name: Seq<char>)
    requires
        index.exact.contains_key(ascii_lower(trim_end_char(name, '.'))),
    ensures
        resolution(index, Some(name)) == Some(
            index.exact[ascii_lower(trim_end_char(name, '.'))],
        ),
{
}

proof fn lemma_first_dot(name: Seq<char>, i: int)
    requires
        0 <= i <= name.len(),
    ensures
        match first_dot(name, i) {
            Some(k) => i <= k < name.len() && name[k] == '.' && forall|j: int|
                i <= j < k ==> name[j] != '.',
            None => forall|j: int| i <= j < name.len() ==> name[j] != '.',
        },
    decreases name.len() - i,
{
    if i < name.len() && name[i] != '.' {
        lemma_first_dot(name, i + 1);
    }
}

/// A wildcard stands for exactly one label: the name is that label, a dot, and the domain of the
/// wildcard.
pub proof fn law_wildcard_covers_one_label(name: Seq<char>)
    requires
        parent_domain(name) is Some,
    ensures
        exists|label: Seq<char>|
            !label.contains('.') && name == #[trigger] (label + "."@) + parent_domain(name)->0,
{
    reveal_strlit(".");
    lemma_first_dot(name, 0);
    let i = first_dot(name, 0)->0;
    let label = name.take(i);
    assert(!label.contains('.'));
    assert(name =~= (label + "."@) + parent_domain(name)->0);
}

/// A name that is a label, a dot and a domain has that domain as its parent, and a name without a
/// dot has none.
pub proof fn law_parent_is_behind_the_first_label(name: Seq<char>, label: Seq<char>, domain: Seq<char>)
    requires
        !label.contains('.'),
    ensures
        parent_domain(label + seq!['.'] + domain) == Some(domain),
        !name.contains('.') <==> parent_domain(name) is None,
{
    let whole = label + seq!['.'] + domain;
    lemma_first_dot(whole, 0);
    lemma_first_dot(name, 0);
    assert(whole[label.len() as int] == '.');
    assert(forall|j: int| 0 <= j < label.len() ==> whole[j] == label[j]);
    if let Some(k) = first_dot(whole, 0) {
        if k < label.len() {
            assert(label.contains(label[k]));
        }
        assert(k == label.len());
        assert(whole.skip(k + 1) =~= domain);
    }
    if let Some(k) = first_dot(name, 0) {
        assert(name.contains(name[k]));
    }
}

/// A client gets the certificate of the very name that it asks for; where there is none and the
/// name is one label below a domain, that of a wildcard over the domain; and the default in every
/// other case, also where it names no server.
pub proof fn law_clients_get_the_certificate_of_their_name(
    index: IndexModel,
    server_name: Seq<char>,
    label: Seq<char>,
    domain: Seq<char>,
)
    requires
        !label.contains('.'),
    ensures
        ({
            let name = ascii_lower(trim_end_char(server_name, '.'));
            let got = resolution(index, Some(server_name));
            &&& index.exact.contains_key(name) ==> got == Some(index.exact[name])
            &&& !index.exact.contains_key(name) && name == label + seq!['.'] + domain ==> got == (
            if index.wildcard.contains_key(domain) {
                Some(index.wildcard[domain])
            } else {
                index.default
            })
            &&& !index.exact.contains_key(name) && !name.contains('.') ==> got == index.default
        }),
        resolution(index, None) == index.default,
{
    let name = ascii_lower(trim_end_char(server_name, '.'));
    law_parent_is_behind_the_first_label(name, label, domain);
}

/// A dot at the end of the name that a client asks for changes nothing.
pub proof fn law_final_dot_does_not_matter(index: IndexModel, server_name: Seq<char>)
    ensures
        resolution(index, Some(server_name.push('.'))) == resolution(index, Some(server_name)),
{
    assert(server_name.push('.').drop_last() =~= server_name);
}

} // verus!
