//! Which certificates a directory holds.

use vstd::hash_set::StringHashSet;
use vstd::prelude::*;

use crate::config::tls::{TlsConfig, TlsModel};
use crate::order::{law_sort, lemma_sort_contains, sort_texts, sorted_texts};
use crate::text::{chars_of, debug_of, debug_text, ends_with, join2, join3, text_between, texts};

verus! {

/// The part of a file name before a suffix.
pub open spec fn stem(name: Seq<char>, suffix: Seq<char>) -> Option<Seq<char>> {
    if suffix.is_suffix_of(name) {
        Some(name.take(name.len() - suffix.len()))
    } else {
        None
    }
}

/// The ids of the certificates and of the keys among some files.
pub struct FoundIds {
    pub certificates: Seq<Seq<char>>,
    pub keys: Seq<Seq<char>>,
}

/// What one more file adds.
pub open spec fn with_file(found: FoundIds, config: TlsModel, name: Seq<char>) -> Result<
    FoundIds,
    Seq<char>,
> {
    match stem(name, config.cert_suffix) {
        Some(id) => if id.len() == 0 {
            Err("TLS certificate filename "@ + debug_text(name) + " has an empty certificate id"@)
        } else if found.certificates.contains(id) {
            Err("duplicate TLS certificate id "@ + debug_text(id))
        } else {
            Ok(FoundIds { certificates: found.certificates.push(id), ..found })
        },
        None => match stem(name, config.key_suffix) {
            Some(id) => if id.len() == 0 {
                Err("TLS key filename "@ + debug_text(name) + " has an empty certificate id"@)
            } else if found.keys.contains(id) {
                Err("duplicate TLS key id "@ + debug_text(id))
            } else {
                Ok(FoundIds { keys: found.keys.push(id), ..found })
            },
            None => Ok(found),
        },
    }
}

/// What the first `n` files hold.
pub open spec fn found_among(config: TlsModel, names: Seq<Seq<char>>, n: int) -> Result<
    FoundIds,
    Seq<char>,
>
    decreases n,
{
    if n <= 0 {
        Ok(FoundIds { certificates: Seq::empty(), keys: Seq::empty() })
    } else {
        match found_among(config, names, n - 1) {
            Err(e) => Err(e),
            Ok(found) => with_file(found, config, names[n - 1]),
        }
    }
}

/// The ids among the first `n` keys that no certificate has.
pub open spec fn keys_alone(found: FoundIds, n: int) -> Seq<Seq<char>>
    decreases n,
{
    if n <= 0 {
        Seq::empty()
    } else if found.certificates.contains(found.keys[n - 1]) {
        keys_alone(found, n - 1)
    } else {
        keys_alone(found, n - 1).push(found.keys[n - 1])
    }
}

/// Every id once, in order.
pub open spec fn all_ids(found: FoundIds) -> Seq<Seq<char>> {
    sort_texts(found.certificates + keys_alone(found, found.keys.len() as int))
}

/// What is wrong with the first of the ids from `i` on that lacks a file.
pub open spec fn unpaired(found: FoundIds, ids: Seq<Seq<char>>, i: int) -> Option<Seq<char>>
    decreases ids.len() - i,
{
    if i < 0 || i >= ids.len() {
        None
    } else if !found.certificates.contains(ids[i]) {
        Some("TLS private key "@ + debug_text(ids[i]) + " has no matching certificate"@)
    } else if !found.keys.contains(ids[i]) {
        Some("TLS certificate "@ + debug_text(ids[i]) + " has no matching private key"@)
    } else {
        unpaired(found, ids, i + 1)
    }
}

/// The ids of the certificates that a directory holds with their keys, in order.
pub open spec fn pairs_result(config: TlsModel, names: Seq<Seq<char>>) -> Result<
    Seq<Seq<char>>,
    Seq<char>,
> {
    match found_among(config, names, names.len() as int) {
        Err(e) => Err(e),
        Ok(found) => match unpaired(found, all_ids(found), 0) {
            Some(e) => Err(e),
            None => Ok(all_ids(found)),
        },
    }
}

fn strip_suffix(name: &str, suffix: &str) -> (r: Option<String>)
    ensures
        crate::text::opt_text(r) == stem(name@, suffix@),
{
    if !ends_with(name, suffix) {
        return None;
    }
    let v = chars_of(name);
    let n: usize = v.len() - chars_of(suffix).len();
    let id = text_between(&v, 0, n);
    assert(id@ =~= name@.take(name@.len() - suffix@.len()));
    Some(id)
}

proof fn lemma_found_error_stays(config: TlsModel, names: Seq<Seq<char>>, n: int, m: int)
    requires
        found_among(config, names, n) is Err,
        n <= m,
    ensures
        found_among(config, names, m) == found_among(config, names, n),
    decreases m - n,
{
    if n < m {
        lemma_found_error_stays(config, names, n, m - 1);
    }
}

/// Whether a set holds exactly the texts of a list.
pub open spec fn same_members(set: Set<Seq<char>>, list: Seq<Seq<char>>) -> bool {
    forall|x: Seq<char>| #[trigger] set.contains(x) <==> list.contains(x)
}

proof fn lemma_push_members(set: Set<Seq<char>>, list: Seq<Seq<char>>, x: Seq<char>)
    requires
        same_members(set, list),
    ensures
        same_members(set.insert(x), list.push(x)),
{
    assert forall|y: Seq<char>| #[trigger]
        set.insert(x).contains(y) <==> list.push(x).contains(y) by {
        if list.contains(y) {
            let i = list.index_of(y);
            assert(list.push(x)[i] == y);
        }
        if y == x {
            assert(list.push(x)[list.len() as int] == y);
        }
        if list.push(x).contains(y) && y != x {
            let i = list.push(x).index_of(y);
            assert(list[i] == y);
        }
    }
}

/// The ids of the certificates that a directory holds with their keys, given the names of its
/// regular files.
pub fn discover_pairs(config: &TlsConfig, names: &Vec<String>) -> (r: Result<Vec<String>, String>)
    ensures
        match r {
            Ok(ids) => pairs_result(config@, texts(names@)) == Ok::<Seq<Seq<char>>, Seq<char>>(
                texts(ids@),
            ),
            Err(e) => pairs_result(config@, texts(names@)) == Err::<Seq<Seq<char>>, Seq<char>>(e@),
        },
{
    let ghost all = texts(names@);
    let ghost last = all.len() as int;
    let mut certificates: Vec<String> = Vec::new();
    let mut keys: Vec<String> = Vec::new();
    let mut certificate_set = StringHashSet::new();
    let mut key_set = StringHashSet::new();
    let mut i: usize = 0;
    proof {
        assert(texts(certificates@) =~= Seq::<Seq<char>>::empty());
        assert(texts(keys@) =~= Seq::<Seq<char>>::empty());
    }
    while i < names.len()
        invariant
            i <= names@.len(),
            all == texts(names@),
            last == all.len(),
            last == names@.len(),
            found_among(config@, all, i as int) == Ok::<FoundIds, Seq<char>>(
                FoundIds { certificates: texts(certificates@), keys: texts(keys@) },
            ),
            same_members(certificate_set@, texts(certificates@)),
            same_members(key_set@, texts(keys@)),
        decreases names@.len() - i,
    {
        let name = &names[i];
        assert(all[i as int] == name@);
        match strip_suffix(name, config.cert_suffix()) {
            Some(id) => {
                if id.as_str().is_empty() {
                    proof {
                        lemma_found_error_stays(config@, all, i + 1, last);
                    }
                    return Err(
                        join3(
                            "TLS certificate filename ",
                            &debug_of(name),
                            " has an empty certificate id",
                        ),
                    );
                }
                if certificate_set.contains(&id) {
                    proof {
                        lemma_found_error_stays(config@, all, i + 1, last);
                    }
                    return Err(join2("duplicate TLS certificate id ", &debug_of(&id)));
                }
                proof {
                    lemma_push_members(certificate_set@, texts(certificates@), id@);
                }
                let ghost before = texts(certificates@);
                let ghost added = id@;
                certificate_set.insert(id.clone());
                certificates.push(id);
                assert(texts(certificates@) =~= before.push(added));
            },
            None => match strip_suffix(name, config.key_suffix()) {
                Some(id) => {
                    if id.as_str().is_empty() {
                        proof {
                            lemma_found_error_stays(config@, all, i + 1, last);
                        }
                        return Err(
                            join3(
                                "TLS key filename ",
                                &debug_of(name),
                                " has an empty certificate id",
                            ),
                        );
                    }
                    if key_set.contains(&id) {
                        proof {
                            lemma_found_error_stays(config@, all, i + 1, last);
                        }
                        return Err(join2("duplicate TLS key id ", &debug_of(&id)));
                    }
                    proof {
                        lemma_push_members(key_set@, texts(keys@), id@);
                    }
                    let ghost before = texts(keys@);
                    let ghost added = id@;
                    key_set.insert(id.clone());
                    keys.push(id);
                    assert(texts(keys@) =~= before.push(added));
                },
                None => {},
            },
        }
        i += 1;
    }
    let ghost found = FoundIds { certificates: texts(certificates@), keys: texts(keys@) };
    let mut ids = certificates;
    let mut k: usize = 0;
    assert(texts(ids@) =~= found.certificates + keys_alone(found, 0));
    while k < keys.len()
        invariant
            k <= keys@.len(),
            found.keys == texts(keys@),
            same_members(certificate_set@, found.certificates),
            texts(ids@) == found.certificates + keys_alone(found, k as int),
        decreases keys@.len() - k,
    {
        assert(found.keys[k as int] == keys@[k as int]@);
        if !certificate_set.contains(&keys[k]) {
            let ghost before = texts(ids@);
            ids.push(keys[k].clone());
            proof {
                assert(texts(ids@) =~= before.push(found.keys[k as int]));
                assert(before.push(found.keys[k as int]) =~= found.certificates + keys_alone(
                    found,
                    k + 1,
                ));
            }
        }
        k += 1;
    }
    let sorted = sorted_texts(ids);
    let ghost order = all_ids(found);
    assert(texts(sorted@) == order);
    let mut j: usize = 0;
    while j < sorted.len()
        invariant
            j <= sorted@.len(),
            texts(sorted@) == order,
            order == all_ids(found),
            all == texts(names@),
            found_among(config@, all, all.len() as int) == Ok::<FoundIds, Seq<char>>(found),
            same_members(certificate_set@, found.certificates),
            same_members(key_set@, found.keys),
            unpaired(found, order, 0) == unpaired(found, order, j as int),
        decreases sorted@.len() - j,
    {
        assert(order[j as int] == sorted@[j as int]@);
        if !certificate_set.contains(&sorted[j]) {
            return Err(
                join3("TLS private key ", &debug_of(&sorted[j]), " has no matching certificate"),
            );
        }
        if !key_set.contains(&sorted[j]) {
            return Err(
                join3("TLS certificate ", &debug_of(&sorted[j]), " has no matching private key"),
            );
        }
        j += 1;
    }
    Ok(sorted)
}

proof fn lemma_no_unpaired(found: FoundIds, ids: Seq<Seq<char>>, i: int, j: int)
    requires
        0 <= i <= j < ids.len(),
        unpaired(found, ids, i) is None,
    ensures
        found.certificates.contains(ids[j]),
        found.keys.contains(ids[j]),
    decreases j - i,
{
    if i < j {
        lemma_no_unpaired(found, ids, i + 1, j);
    }
}

proof fn lemma_keys_alone(found: FoundIds, n: int, id: Seq<char>)
    requires
        0 <= n <= found.keys.len(),
    ensures
        found.keys.take(n).contains(id) && !found.certificates.contains(id) ==> keys_alone(
            found,
            n,
        ).contains(id),
    decreases n,
{
    if n > 0 && found.keys.take(n).contains(id) && !found.certificates.contains(id) {
        let i = found.keys.take(n).index_of(id);
        let earlier = keys_alone(found, n - 1);
        let now = keys_alone(found, n);
        if i < n - 1 {
            assert(found.keys.take(n - 1)[i] == id);
            lemma_keys_alone(found, n - 1, id);
            let k = earlier.index_of(id);
            assert(now[k] == id);
        } else {
            assert(found.keys[n - 1] == id);
            assert(now[now.len() - 1] == id);
        }
    }
}

/// A directory is accepted only if every certificate has its key and every key its certificate,
/// and then exactly these ids are found.
pub proof fn law_files_come_in_pairs(config: TlsModel, names: Seq<Seq<char>>, id: Seq<char>)
    requires
        pairs_result(config, names) is Ok,
    ensures
        ({
            let found = found_among(config, names, names.len() as int)->Ok_0;
            let ids = pairs_result(config, names)->Ok_0;
            &&& ids.contains(id) <==> found.certificates.contains(id)
            &&& ids.contains(id) <==> found.keys.contains(id)
        }),
{
    let found = found_among(config, names, names.len() as int)->Ok_0;
    let ids = all_ids(found);
    let alone = keys_alone(found, found.keys.len() as int);
    let unsorted = found.certificates + alone;
    lemma_sort_contains(unsorted, id);
    if ids.contains(id) {
        lemma_no_unpaired(found, ids, 0, ids.index_of(id));
    }
    if found.certificates.contains(id) {
        let i = found.certificates.index_of(id);
        assert(unsorted[i] == id);
    }
    if found.keys.contains(id) && !found.certificates.contains(id) {
        assert(found.keys.take(found.keys.len() as int) =~= found.keys);
        lemma_keys_alone(found, found.keys.len() as int, id);
        let i = alone.index_of(id);
        assert(unsorted[found.certificates.len() + i] == id);
    }
}

/// A file name has a stem exactly where it is the stem followed by the suffix.
pub proof fn law_stems_are_completed_by_the_suffix(name: Seq<char>, suffix: Seq<char>, id: Seq<char>)
    ensures
        stem(name, suffix) == Some(id) <==> name == id + suffix,
{
    if stem(name, suffix) == Some(id) {
        assert(name =~= id + suffix);
    }
    if name == id + suffix {
        assert(name.skip(name.len() - suffix.len()) =~= suffix);
        assert(name.subrange(name.len() - suffix.len(), name.len() as int) =~= suffix);
        assert(name.take(name.len() - suffix.len()) =~= id);
    }
}

/// What one more file adds: an id to the certificates where its name is the id and the suffix of
/// certificates, otherwise an id to the keys where it is the id and the suffix of keys, and nothing
/// where it is neither. It is refused only where the id is empty or was found before.
pub proof fn law_files_add_their_ids(
    found: FoundIds,
    config: TlsModel,
    name: Seq<char>,
    id: Seq<char>,
)
    ensures
        ({
            let r = with_file(found, config, name);
            let foreign = forall|x: Seq<char>| name != #[trigger] (x + config.cert_suffix);
            &&& name == id + config.cert_suffix ==> {
                &&& r is Ok <==> id.len() > 0 && !found.certificates.contains(id)
                &&& r is Ok ==> r->Ok_0.certificates == found.certificates.push(id)
                    && r->Ok_0.keys == found.keys
            }
            &&& foreign && name == id + config.key_suffix ==> {
                &&& r is Ok <==> id.len() > 0 && !found.keys.contains(id)
                &&& r is Ok ==> r->Ok_0.keys == found.keys.push(id) && r->Ok_0.certificates
                    == found.certificates
            }
            &&& foreign && (forall|x: Seq<char>| name != #[trigger] (x + config.key_suffix)) ==> r
                == Ok::<FoundIds, Seq<char>>(found)
        }),
{
    law_stems_are_completed_by_the_suffix(name, config.cert_suffix, id);
    law_stems_are_completed_by_the_suffix(name, config.key_suffix, id);
    if let Some(x) = stem(name, config.cert_suffix) {
        law_stems_are_completed_by_the_suffix(name, config.cert_suffix, x);
        assert(name == x + config.cert_suffix);
    }
    if let Some(x) = stem(name, config.key_suffix) {
        law_stems_are_completed_by_the_suffix(name, config.key_suffix, x);
        assert(name == x + config.key_suffix);
    }
}

/// Exactly the ids of the certificate files are found as certificates.
pub proof fn law_certificate_files_are_found(
    config: TlsModel,
    names: Seq<Seq<char>>,
    n: int,
    id: Seq<char>,
)
    requires
        0 <= n <= names.len(),
        found_among(config, names, n) is Ok,
    ensures
        found_among(config, names, n)->Ok_0.certificates.contains(id) <==> exists|j: int|
            0 <= j < n && #[trigger] names[j] == id + config.cert_suffix,
    decreases n,
{
    if n > 0 {
        law_certificate_files_are_found(config, names, n - 1, id);
        let before = found_among(config, names, n - 1)->Ok_0;
        let after = found_among(config, names, n)->Ok_0;
        law_stems_are_completed_by_the_suffix(names[n - 1], config.cert_suffix, id);
        match stem(names[n - 1], config.cert_suffix) {
            Some(x) => {
                assert(after.certificates == before.certificates.push(x));
                assert(after.certificates[before.certificates.len() as int] == x);
                assert forall|y: Seq<char>| before.certificates.contains(y) implies #[trigger] after.certificates.contains(
                y) by {
                    let k = choose|k: int|
                        0 <= k < before.certificates.len() && before.certificates[k] == y;
                    assert(after.certificates[k] == y);
                }
                if after.certificates.contains(id) && x != id {
                    let k = choose|k: int|
                        0 <= k < after.certificates.len() && after.certificates[k] == id;
                    assert(before.certificates[k] == id);
                }
            },
            None => {
                assert(after.certificates == before.certificates);
            },
        }
        if after.certificates.contains(id) {
            if before.certificates.contains(id) {
                let j = choose|j: int| 0 <= j < n - 1 && #[trigger] names[j] == id
                    + config.cert_suffix;
                assert(names[j] == id + config.cert_suffix);
            } else {
                assert(names[n - 1] == id + config.cert_suffix);
            }
        }
    }
}

/// Exactly the ids of the key files are found as keys. A file that has the suffix of certificates
/// is not a key file.
pub proof fn law_key_files_are_found(
    config: TlsModel,
    names: Seq<Seq<char>>,
    n: int,
    id: Seq<char>,
)
    requires
        0 <= n <= names.len(),
        found_among(config, names, n) is Ok,
    ensures
        found_among(config, names, n)->Ok_0.keys.contains(id) <==> exists|j: int|
            0 <= j < n && #[trigger] names[j] == id + config.key_suffix
                && !config.cert_suffix.is_suffix_of(names[j]),
    decreases n,
{
    if n > 0 {
        law_key_files_are_found(config, names, n - 1, id);
        let before = found_among(config, names, n - 1)->Ok_0;
        let after = found_among(config, names, n)->Ok_0;
        law_stems_are_completed_by_the_suffix(names[n - 1], config.key_suffix, id);
        let key = if config.cert_suffix.is_suffix_of(names[n - 1]) {
            None
        } else {
            stem(names[n - 1], config.key_suffix)
        };
        match key {
            Some(x) => {
                assert(after.keys == before.keys.push(x));
                assert(after.keys[before.keys.len() as int] == x);
                assert forall|y: Seq<char>| before.keys.contains(y) implies #[trigger] after.keys.contains(
                y) by {
                    let k = choose|k: int| 0 <= k < before.keys.len() && before.keys[k] == y;
                    assert(after.keys[k] == y);
                }
                if after.keys.contains(id) && x != id {
                    let k = choose|k: int| 0 <= k < after.keys.len() && after.keys[k] == id;
                    assert(before.keys[k] == id);
                }
            },
            None => {
                assert(after.keys == before.keys);
            },
        }
        if after.keys.contains(id) {
            if before.keys.contains(id) {
                let j = choose|j: int|
                    0 <= j < n - 1 && #[trigger] names[j] == id + config.key_suffix
                        && !config.cert_suffix.is_suffix_of(names[j]);
                assert(names[j] == id + config.key_suffix);
            } else {
                assert(names[n - 1] == id + config.key_suffix);
            }
        }
    }
}

/// A directory, whose files all have names of their own, is read to its end unless a file is named
/// by a suffix alone.
pub proof fn law_directories_are_read(config: TlsModel, names: Seq<Seq<char>>, n: int)
    requires
        0 <= n <= names.len(),
        names.no_duplicates(),
        forall|j: int|
            0 <= j < names.len() ==> #[trigger] names[j] != config.cert_suffix && names[j]
                != config.key_suffix,
    ensures
        found_among(config, names, n) is Ok,
    decreases n,
{
    if n > 0 {
        law_directories_are_read(config, names, n - 1);
        let before = found_among(config, names, n - 1)->Ok_0;
        let name = names[n - 1];
        if let Some(id) = stem(name, config.cert_suffix) {
            law_stems_are_completed_by_the_suffix(name, config.cert_suffix, id);
            law_certificate_files_are_found(config, names, n - 1, id);
            if id.len() == 0 {
                assert(name =~= config.cert_suffix);
            }
            if before.certificates.contains(id) {
                let j = choose|j: int| 0 <= j < n - 1 && #[trigger] names[j] == id
                    + config.cert_suffix;
                assert(names[j] == names[n - 1]);
            }
        } else if let Some(id) = stem(name, config.key_suffix) {
            law_stems_are_completed_by_the_suffix(name, config.key_suffix, id);
            law_key_files_are_found(config, names, n - 1, id);
            if id.len() == 0 {
                assert(name =~= config.key_suffix);
            }
            if before.keys.contains(id) {
                let j = choose|j: int|
                    0 <= j < n - 1 && #[trigger] names[j] == id + config.key_suffix
                        && !config.cert_suffix.is_suffix_of(names[j]);
                assert(names[j] == names[n - 1]);
            }
        }
    }
}

proof fn lemma_unpaired_is_there(found: FoundIds, ids: Seq<Seq<char>>, i: int)
    requires
        0 <= i <= ids.len(),
        unpaired(found, ids, i) is Some,
    ensures
        exists|j: int|
            i <= j < ids.len() && !(found.certificates.contains(#[trigger] ids[j])
                && found.keys.contains(ids[j])),
    decreases ids.len() - i,
{
    if i < ids.len() && found.certificates.contains(ids[i]) && found.keys.contains(ids[i]) {
        lemma_unpaired_is_there(found, ids, i + 1);
        let j = choose|j: int|
            i + 1 <= j < ids.len() && !(found.certificates.contains(#[trigger] ids[j])
                && found.keys.contains(ids[j]));
        assert(!(found.certificates.contains(ids[j]) && found.keys.contains(ids[j])));
    }
}

proof fn lemma_keys_alone_are_keys(found: FoundIds, n: int, id: Seq<char>)
    requires
        0 <= n <= found.keys.len(),
        keys_alone(found, n).contains(id),
    ensures
        found.keys.contains(id),
        !found.certificates.contains(id),
    decreases n,
{
    if n > 0 {
        let earlier = keys_alone(found, n - 1);
        if found.certificates.contains(found.keys[n - 1]) {
            lemma_keys_alone_are_keys(found, n - 1, id);
        } else {
            let whole = earlier.push(found.keys[n - 1]);
            let k = choose|k: int| 0 <= k < whole.len() && whole[k] == id;
            if k < earlier.len() {
                assert(earlier[k] == id);
                lemma_keys_alone_are_keys(found, n - 1, id);
            } else {
                assert(found.keys.contains(found.keys[n - 1]));
            }
        }
    }
}

/// A directory that could be read is accepted exactly where its certificates and its keys have the
/// same ids, and its ids are then in order.
pub proof fn law_paired_directories_are_accepted(config: TlsModel, names: Seq<Seq<char>>)
    requires
        found_among(config, names, names.len() as int) is Ok,
    ensures
        ({
            let found = found_among(config, names, names.len() as int)->Ok_0;
            let r = pairs_result(config, names);
            &&& r is Ok <==> forall|id: Seq<char>| #[trigger]
                found.certificates.contains(id) <==> found.keys.contains(id)
            &&& r matches Ok(ids) ==> forall|i: int, j: int|
                0 <= i < j < ids.len() ==> !crate::text::text_before(#[trigger] ids[j], #[trigger] ids[i])
        }),
{
    let found = found_among(config, names, names.len() as int)->Ok_0;
    let alone = keys_alone(found, found.keys.len() as int);
    let joined = found.certificates + alone;
    let ids = all_ids(found);
    law_sort(joined);
    if pairs_result(config, names) is Ok {
        assert forall|id: Seq<char>|
            #[trigger] found.certificates.contains(id) <==> found.keys.contains(id) by {
            law_files_come_in_pairs(config, names, id);
        }
    }
    if forall|id: Seq<char>| #[trigger] found.certificates.contains(id) <==> found.keys.contains(id) {
        if unpaired(found, ids, 0) is Some {
            lemma_unpaired_is_there(found, ids, 0);
            let j = choose|j: int|
                0 <= j < ids.len() && !(found.certificates.contains(#[trigger] ids[j])
                    && found.keys.contains(ids[j]));
            let id = ids[j];
            assert(ids.contains(id));
            lemma_sort_contains(joined, id);
            assert(joined.contains(id));
            let k = choose|k: int| 0 <= k < joined.len() && joined[k] == id;
            if k < found.certificates.len() {
                assert(found.certificates[k] == id);
                assert(found.certificates.contains(id));
            } else {
                assert(alone[k - found.certificates.len()] == id);
                assert(alone.contains(id));
                lemma_keys_alone_are_keys(found, found.keys.len() as int, id);
            }
        }
    }
}

} // verus!
