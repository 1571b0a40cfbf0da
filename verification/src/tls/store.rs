//! The certificates in service, by the names that they cover.

use std::sync::Arc;

use rustls::sign::CertifiedKey;

use vstd::hash_map::StringHashMap;
use vstd::prelude::*;

use crate::config::tls::{TlsConfig, TlsModel};
use crate::shared::share;
use crate::text::{
    append, chars_of, debug_of, debug_text, holds_text, join2, join3, opt_text, same_text,
    starts_with, text_between, texts,
};

use super::certificate::{
    certified_of, pair_result, parse_certificate_pair, CertificateMetadata, CertifiedModel,
    MetadataModel,
};

verus! {

/// The files of one certificate.
pub struct CertificatePair {
    pub id: String,
    pub certificate: Vec<u8>,
    pub key: Vec<u8>,
}

pub struct PairModel {
    pub id: Seq<char>,
    pub certificate: Seq<u8>,
    pub key: Seq<u8>,
}

impl View for CertificatePair {
    type V = PairModel;

    open spec fn view(&self) -> PairModel {
        PairModel { id: self.id@, certificate: self.certificate@, key: self.key@ }
    }
}

pub open spec fn pair_models(pairs: Seq<CertificatePair>) -> Seq<PairModel> {
    pairs.map_values(|pair: CertificatePair| pair@)
}

/// The certificates in service. Each is known by its chain and its key.
pub struct IndexModel {
    /// Certificates by the names that they cover.
    pub exact: Map<Seq<char>, CertifiedModel>,
    /// Certificates by the domains below which they cover one label.
    pub wildcard: Map<Seq<char>, CertifiedModel>,
    /// The certificate for clients that name no server, or one that is not covered.
    pub default: Option<CertifiedModel>,
    pub metadata: Map<Seq<char>, MetadataModel>,
    /// The ids, in the order in which the certificates were taken in.
    pub ids: Seq<Seq<char>>,
}

/// The certificates in service, by the names that they cover.
pub struct CertificateIndex {
    exact: StringHashMap<Arc<CertifiedKey>>,
    wildcard: StringHashMap<Arc<CertifiedKey>>,
    default: Option<Arc<CertifiedKey>>,
    metadata: StringHashMap<CertificateMetadata>,
    ids: Vec<String>,
}

pub open spec fn certified_keys(map: Map<Seq<char>, Arc<CertifiedKey>>) -> Map<
    Seq<char>,
    CertifiedModel,
> {
    map.map_values(|key: Arc<CertifiedKey>| certified_of(*key))
}

/// What a shared key is made of.
pub open spec fn shared_certified(key: &Arc<CertifiedKey>) -> CertifiedModel {
    certified_of(**key)
}

pub open spec fn opt_certified(key: Option<Arc<CertifiedKey>>) -> Option<CertifiedModel> {
    match key {
        Some(key) => Some(certified_of(*key)),
        None => None,
    }
}

pub open spec fn metadata_models(map: Map<Seq<char>, CertificateMetadata>) -> Map<
    Seq<char>,
    MetadataModel,
> {
    map.map_values(|metadata: CertificateMetadata| metadata@)
}

impl View for CertificateIndex {
    type V = IndexModel;

    closed spec fn view(&self) -> IndexModel {
        IndexModel {
            exact: certified_keys(self.exact@),
            wildcard: certified_keys(self.wildcard@),
            default: opt_certified(self.default),
            metadata: metadata_models(self.metadata@),
            ids: texts(self.ids@),
        }
    }
}

/// No certificates.
pub open spec fn empty_index() -> IndexModel {
    IndexModel {
        exact: Map::empty(),
        wildcard: Map::empty(),
        default: None,
        metadata: Map::empty(),
        ids: Seq::empty(),
    }
}

pub open spec fn is_wildcard(name: Seq<char>) -> bool {
    "*."@.is_prefix_of(name)
}

/// The index with one more name of a certificate; a name that is taken is refused.
pub open spec fn with_name(index: IndexModel, name: Seq<char>, certified: CertifiedModel) -> Result<
    IndexModel,
    Seq<char>,
> {
    if is_wildcard(name) {
        if index.wildcard.contains_key(name.skip(2)) {
            Err("more than one TLS certificate claims wildcard SAN "@ + debug_text(name))
        } else {
            Ok(IndexModel { wildcard: index.wildcard.insert(name.skip(2), certified), ..index })
        }
    } else {
        if index.exact.contains_key(name) {
            Err("more than one TLS certificate claims DNS SAN "@ + debug_text(name))
        } else {
            Ok(IndexModel { exact: index.exact.insert(name, certified), ..index })
        }
    }
}

/// The index with the first `n` names of a certificate.
pub open spec fn with_names(
    index: IndexModel,
    names: Seq<Seq<char>>,
    certified: CertifiedModel,
    n: int,
) -> Result<IndexModel, Seq<char>>
    decreases n,
{
    if n <= 0 {
        Ok(index)
    } else {
        match with_names(index, names, certified, n - 1) {
            Err(e) => Err(e),
            Ok(earlier) => with_name(earlier, names[n - 1], certified),
        }
    }
}

/// The index with one more certificate, which serves as default where it is the one named so.
pub open spec fn with_pair(index: IndexModel, config: TlsModel, pair: PairModel) -> Result<
    IndexModel,
    Seq<char>,
> {
    match pair_result(pair.id, pair.certificate, pair.key) {
        Err(e) => Err(e),
        Ok((certified, metadata)) => match with_names(
            index,
            metadata.dns_names,
            certified,
            metadata.dns_names.len() as int,
        ) {
            Err(e) => Err(e),
            Ok(named) => Ok(
                IndexModel {
                    default: if config.default_certificate == Some(pair.id) {
                        Some(certified)
                    } else {
                        named.default
                    },
                    metadata: named.metadata.insert(pair.id, metadata),
                    ids: named.ids.push(pair.id),
                    ..named
                },
            ),
        },
    }
}

/// The index of the first `n` certificates.
pub open spec fn index_result(config: TlsModel, pairs: Seq<PairModel>, n: int) -> Result<
    IndexModel,
    Seq<char>,
>
    decreases n,
{
    if n <= 0 {
        Ok(empty_index())
    } else {
        match index_result(config, pairs, n - 1) {
            Err(e) => Err(e),
            Ok(index) => with_pair(index, config, pairs[n - 1]),
        }
    }
}

/// The first of the names from `k` on that is also in `existing`.
pub open spec fn first_shared(names: Seq<Seq<char>>, existing: Seq<Seq<char>>, k: int) -> Option<
    Seq<char>,
>
    decreases names.len() - k,
{
    if k < 0 || k >= names.len() {
        None
    } else if existing.contains(names[k]) {
        Some(names[k])
    } else {
        first_shared(names, existing, k + 1)
    }
}

/// Which certificate other than `id`, among those from `i` on, owns one of the names.
pub open spec fn conflict(
    index: IndexModel,
    id: Seq<char>,
    names: Seq<Seq<char>>,
    i: int,
) -> Option<Seq<char>>
    decreases index.ids.len() - i,
{
    if i < 0 || i >= index.ids.len() {
        None
    } else {
        let other = index.ids[i];
        let shared = if other != id && index.metadata.contains_key(other) {
            first_shared(names, index.metadata[other].dns_names, 0)
        } else {
            None
        };
        match shared {
            Some(name) => Some(
                "replacement TLS certificate "@ + debug_text(id) + " claims DNS SAN "@
                    + debug_text(name) + ", already owned by certificate "@ + debug_text(other),
            ),
            None => conflict(index, id, names, i + 1),
        }
    }
}

/// What a certificate that is to take the place of the one named `id` comes to.
pub open spec fn replacement_result(
    index: IndexModel,
    id: Seq<char>,
    parsed: Result<(CertifiedModel, MetadataModel), Seq<char>>,
) -> Result<MetadataModel, Seq<char>> {
    match parsed {
        Err(e) => Err(e),
        Ok((_, metadata)) => match conflict(index, id, metadata.dns_names, 0) {
            Some(e) => Err(e),
            None => Ok(metadata),
        },
    }
}

fn find_shared(names: &Vec<String>, existing: &Vec<String>) -> (r: Option<usize>)
    ensures
        match r {
            Some(k) => k < names@.len() && first_shared(texts(names@), texts(existing@), 0) == Some(
                names@[k as int]@,
            ),
            None => first_shared(texts(names@), texts(existing@), 0) is None,
        },
{
    let ghost all = texts(names@);
    let mut k: usize = 0;
    while k < names.len()
        invariant
            k <= names@.len(),
            all == texts(names@),
            first_shared(all, texts(existing@), 0) == first_shared(
                all,
                texts(existing@),
                k as int,
            ),
        decreases names@.len() - k,
    {
        assert(all[k as int] == names@[k as int]@);
        if holds_text(existing, &names[k]) {
            return Some(k);
        }
        k += 1;
    }
    None
}

/// Whether a name leads to a certificate.
pub open spec fn serves(index: IndexModel, name: Seq<char>, certified: CertifiedModel) -> bool {
    if is_wildcard(name) {
        index.wildcard.contains_key(name.skip(2)) && index.wildcard[name.skip(2)] == certified
    } else {
        index.exact.contains_key(name) && index.exact[name] == certified
    }
}

proof fn lemma_names_are_served(
    index: IndexModel,
    names: Seq<Seq<char>>,
    certified: CertifiedModel,
    n: int,
    name: Seq<char>,
    other: CertifiedModel,
)
    requires
        0 <= n <= names.len(),
        with_names(index, names, certified, n) is Ok,
    ensures
        serves(index, name, other) ==> serves(
            with_names(index, names, certified, n)->Ok_0,
            name,
            other,
        ),
        forall|k: int|
            0 <= k < n ==> serves(
                with_names(index, names, certified, n)->Ok_0,
                #[trigger] names[k],
                certified,
            ),
    decreases n,
{
    if n > 0 {
        lemma_names_are_served(index, names, certified, n - 1, name, other);
        let earlier = with_names(index, names, certified, n - 1)->Ok_0;
        let now = with_names(index, names, certified, n)->Ok_0;
        assert forall|k: int| 0 <= k < n implies serves(now, #[trigger] names[k], certified) by {
            if k < n - 1 {
                assert(serves(earlier, names[k], certified));
            }
        }
    }
}

/// Every name of every certificate in service leads to that certificate and its key.
pub proof fn law_every_name_is_served(config: TlsModel, pairs: Seq<PairModel>, n: int, i: int, k: int)
    requires
        0 <= i < n <= pairs.len(),
        index_result(config, pairs, n) is Ok,
        pair_result(pairs[i].id, pairs[i].certificate, pairs[i].key) is Ok,
        0 <= k < pair_result(
            pairs[i].id,
            pairs[i].certificate,
            pairs[i].key,
        )->Ok_0.1.dns_names.len(),
    ensures
        ({
            let (certified, metadata) = pair_result(
                pairs[i].id,
                pairs[i].certificate,
                pairs[i].key,
            )->Ok_0;
            serves(index_result(config, pairs, n)->Ok_0, metadata.dns_names[k], certified)
        }),
    decreases n,
{
    let (certified, metadata) = pair_result(pairs[i].id, pairs[i].certificate, pairs[i].key)->Ok_0;
    let earlier = index_result(config, pairs, n - 1)->Ok_0;
    let last = pairs[n - 1];
    let (last_certified, last_metadata) = pair_result(last.id, last.certificate, last.key)->Ok_0;
    let names = last_metadata.dns_names;
    if i < n - 1 {
        law_every_name_is_served(config, pairs, n - 1, i, k);
        lemma_names_are_served(
            earlier,
            names,
            last_certified,
            names.len() as int,
            metadata.dns_names[k],
            certified,
        );
    } else {
        lemma_names_are_served(
            earlier,
            names,
            last_certified,
            names.len() as int,
            metadata.dns_names[k],
            certified,
        );
    }
}

/// Every certificate that was taken in can be looked up by its id, as long as no later one has
/// the same id.
pub proof fn law_metadata_is_kept(config: TlsModel, pairs: Seq<PairModel>, n: int, i: int)
    requires
        0 <= i < n <= pairs.len(),
        index_result(config, pairs, n) is Ok,
        forall|j: int| i < j < n ==> (#[trigger] pairs[j]).id != pairs[i].id,
    ensures
        ({
            let index = index_result(config, pairs, n)->Ok_0;
            let parsed = pair_result(pairs[i].id, pairs[i].certificate, pairs[i].key);
            &&& parsed is Ok
            &&& index.metadata.contains_key(pairs[i].id)
            &&& index.metadata[pairs[i].id] == parsed->Ok_0.1
        }),
    decreases n,
{
    let last = pairs[n - 1];
    let earlier = index_result(config, pairs, n - 1)->Ok_0;
    let (last_certified, last_metadata) = pair_result(last.id, last.certificate, last.key)->Ok_0;
    let names = last_metadata.dns_names;
    lemma_names_keep_metadata(earlier, names, last_certified, names.len() as int);
    if i < n - 1 {
        law_metadata_is_kept(config, pairs, n - 1, i);
    }
}

proof fn lemma_names_keep_metadata(
    index: IndexModel,
    names: Seq<Seq<char>>,
    certified: CertifiedModel,
    n: int,
)
    ensures
        with_names(index, names, certified, n) matches Ok(named) ==> named.metadata == index.metadata
            && named.default == index.default && named.ids == index.ids,
    decreases n,
{
    if n > 0 {
        lemma_names_keep_metadata(index, names, certified, n - 1);
    }
}

proof fn lemma_names_error_stays(
    index: IndexModel,
    names: Seq<Seq<char>>,
    certified: CertifiedModel,
    n: int,
    m: int,
)
    requires
        with_names(index, names, certified, n) is Err,
        n <= m,
    ensures
        with_names(index, names, certified, m) == with_names(index, names, certified, n),
    decreases m - n,
{
    if n < m {
        lemma_names_error_stays(index, names, certified, n, m - 1);
    }
}

proof fn lemma_index_error_stays(config: TlsModel, pairs: Seq<PairModel>, n: int, m: int)
    requires
        index_result(config, pairs, n) is Err,
        n <= m,
    ensures
        index_result(config, pairs, m) == index_result(config, pairs, n),
    decreases m - n,
{
    if n < m {
        lemma_index_error_stays(config, pairs, n, m - 1);
    }
}

proof fn lemma_certified_insert(
    map: Map<Seq<char>, Arc<CertifiedKey>>,
    name: Seq<char>,
    key: Arc<CertifiedKey>,
)
    ensures
        certified_keys(map.insert(name, key)) == certified_keys(map).insert(
            name,
            certified_of(*key),
        ),
{
    assert(certified_keys(map.insert(name, key)) =~= certified_keys(map).insert(
        name,
        certified_of(*key),
    ));
}

/// The part of a wildcard name behind the star and its dot.
fn wildcard_domain(name: &str) -> (r: String)
    requires
        is_wildcard(name@),
    ensures
        r@ == name@.skip(2),
{
    proof {
        reveal_strlit("*.");
    }
    let v = chars_of(name);
    let domain = text_between(&v, 2, v.len());
    assert(domain@ =~= name@.skip(2));
    domain
}

impl CertificateIndex {
    /// No certificates.
    pub fn empty() -> (r: CertificateIndex)
        ensures
            r@ == empty_index(),
    {
        let index = CertificateIndex {
            exact: StringHashMap::new(),
            wildcard: StringHashMap::new(),
            default: None,
            metadata: StringHashMap::new(),
            ids: Vec::new(),
        };
        proof {
            assert(certified_keys(index.exact@) =~= Map::empty());
            assert(certified_keys(index.wildcard@) =~= Map::empty());
            assert(metadata_models(index.metadata@) =~= Map::empty());
            assert(texts(index.ids@) =~= Seq::empty());
        }
        index
    }

    fn add_name(&mut self, name: &str, key: &Arc<CertifiedKey>) -> (r: Result<(), String>)
        ensures
            match r {
                Ok(_) => with_name(old(self)@, name@, shared_certified(key)) == Ok::<
                    IndexModel,
                    Seq<char>,
                >(final(self)@),
                Err(e) => with_name(old(self)@, name@, shared_certified(key)) == Err::<
                    IndexModel,
                    Seq<char>,
                >(e@),
            },
    {
        if starts_with(name, "*.") {
            let domain = wildcard_domain(name);
            if self.wildcard.contains_key(&domain) {
                return Err(
                    join2(
                        "more than one TLS certificate claims wildcard SAN ",
                        &debug_of(name),
                    ),
                );
            }
            proof {
                lemma_certified_insert(self.wildcard@, domain@, *key);
            }
            self.wildcard.insert(domain, share(key));
        } else {
            if self.exact.contains_key(name) {
                return Err(
                    join2("more than one TLS certificate claims DNS SAN ", &debug_of(name)),
                );
            }
            proof {
                lemma_certified_insert(self.exact@, name@, *key);
            }
            self.exact.insert(name.to_owned(), share(key));
        }
        Ok(())
    }

    fn add_names(&mut self, names: &Vec<String>, key: &Arc<CertifiedKey>) -> (r: Result<(), String>)
        ensures
            match r {
                Ok(_) => with_names(
                    old(self)@,
                    texts(names@),
                    shared_certified(key),
                    names@.len() as int,
                ) == Ok::<IndexModel, Seq<char>>(final(self)@),
                Err(e) => with_names(
                    old(self)@,
                    texts(names@),
                    shared_certified(key),
                    names@.len() as int,
                ) == Err::<IndexModel, Seq<char>>(e@),
            },
    {
        let ghost all = texts(names@);
        let ghost before = self@;
        let ghost certified = shared_certified(key);
        let mut i: usize = 0;
        while i < names.len()
            invariant
                i <= names@.len(),
                all == texts(names@),
                before == old(self)@,
                certified == shared_certified(key),
                with_names(before, all, certified, i as int) == Ok::<IndexModel, Seq<char>>(
                    self@,
                ),
            decreases names@.len() - i,
        {
            assert(all[i as int] == names@[i as int]@);
            match self.add_name(&names[i], key) {
                Ok(_) => {},
                Err(e) => {
                    proof {
                        lemma_names_error_stays(before, all, certified, i + 1, names@.len() as int);
                    }
                    return Err(e);
                },
            }
            i += 1;
        }
        Ok(())
    }

    fn add_pair(&mut self, config: &TlsConfig, pair: &CertificatePair) -> (r: Result<(), String>)
        ensures
            match r {
                Ok(_) => with_pair(old(self)@, config@, pair@) == Ok::<IndexModel, Seq<char>>(
                    final(self)@,
                ),
                Err(e) => with_pair(old(self)@, config@, pair@) == Err::<IndexModel, Seq<char>>(e@),
            },
    {
        let (key, metadata) = match parse_certificate_pair(
            &pair.id,
            &pair.certificate,
            &pair.key,
        ) {
            Ok(parsed) => parsed,
            Err(e) => {
                return Err(e);
            },
        };
        let names = metadata.dns_names();
        assert(texts(names@).len() == names@.len());
        match self.add_names(names, &key) {
            Ok(_) => {},
            Err(e) => {
                return Err(e);
            },
        }
        let ghost named = self@;
        let is_default = match config.default_certificate() {
            Some(id) => same_text(id, &pair.id),
            None => false,
        };
        if is_default {
            self.default = Some(key);
        }
        let ghost metadata_before = self.metadata@;
        let ghost ids_before = self.ids@;
        let ghost added = metadata@;
        self.metadata.insert(pair.id.clone(), metadata);
        self.ids.push(pair.id.clone());
        proof {
            assert(metadata_models(self.metadata@) =~= metadata_models(metadata_before).insert(
                pair.id@,
                added,
            ));
            assert(texts(self.ids@) =~= texts(ids_before).push(pair.id@));
        }
        Ok(())
    }

    /// The index of the certificates in these files.
    pub fn build(config: &TlsConfig, pairs: &Vec<CertificatePair>) -> (r: Result<
        CertificateIndex,
        String,
    >)
        ensures
            match r {
                Ok(index) => index_result(config@, pair_models(pairs@), pairs@.len() as int) == Ok::<
                    IndexModel,
                    Seq<char>,
                >(index@),
                Err(e) => index_result(config@, pair_models(pairs@), pairs@.len() as int) == Err::<
                    IndexModel,
                    Seq<char>,
                >(e@),
            },
    {
        let ghost all = pair_models(pairs@);
        let mut index = CertificateIndex::empty();
        let mut i: usize = 0;
        while i < pairs.len()
            invariant
                i <= pairs@.len(),
                all == pair_models(pairs@),
                index_result(config@, all, i as int) == Ok::<IndexModel, Seq<char>>(index@),
            decreases pairs@.len() - i,
        {
            assert(all[i as int] == pairs@[i as int]@);
            match index.add_pair(config, &pairs[i]) {
                Ok(_) => {},
                Err(e) => {
                    proof {
                        lemma_index_error_stays(config@, all, i + 1, pairs@.len() as int);
                    }
                    return Err(e);
                },
            }
            i += 1;
        }
        Ok(index)
    }

    pub fn is_empty(&self) -> (r: bool)
        ensures
            r == (self@.metadata.dom().len() == 0),
    {
        proof {
            assert(self.metadata@.dom() =~= self@.metadata.dom());
        }
        self.metadata.len() == 0
    }

    pub fn certificate_count(&self) -> (r: usize)
        ensures
            r == self@.metadata.dom().len(),
    {
        proof {
            assert(self.metadata@.dom() =~= self@.metadata.dom());
        }
        self.metadata.len()
    }

    pub fn metadata(&self, id: &str) -> (r: Option<&CertificateMetadata>)
        ensures
            match r {
                Some(metadata) => self@.metadata.contains_key(id@) && self@.metadata[id@]
                    == metadata@,
                None => !self@.metadata.contains_key(id@),
            },
    {
        self.metadata.get(id)
    }

    /// The certificate that covers exactly `name`.
    pub fn exact_certificate(&self, name: &str) -> (r: Option<Arc<CertifiedKey>>)
        ensures
            opt_certified(r) == (if self@.exact.contains_key(name@) {
                Some(self@.exact[name@])
            } else {
                None
            }),
    {
        match self.exact.get(name) {
            Some(key) => Some(share(key)),
            None => None,
        }
    }

    /// The certificate that covers one label below `domain`.
    pub fn wildcard_certificate(&self, domain: &str) -> (r: Option<Arc<CertifiedKey>>)
        ensures
            opt_certified(r) == (if self@.wildcard.contains_key(domain@) {
                Some(self@.wildcard[domain@])
            } else {
                None
            }),
    {
        match self.wildcard.get(domain) {
            Some(key) => Some(share(key)),
            None => None,
        }
    }

    pub fn default_certificate(&self) -> (r: Option<Arc<CertifiedKey>>)
        ensures
            opt_certified(r) == self@.default,
    {
        match &self.default {
            Some(key) => Some(share(key)),
            None => None,
        }
    }

    /// Why a certificate cannot take the place of the one named `id`, if it cannot: another
    /// certificate owns one of its names.
    pub fn replacement_conflict(&self, id: &str, candidate: &CertificateMetadata) -> (r: Option<
        String,
    >)
        ensures
            opt_text(r) == conflict(self@, id@, candidate@.dns_names, 0),
    {
        let names = candidate.dns_names();
        let ghost ids = self@.ids;
        let mut i: usize = 0;
        while i < self.ids.len()
            invariant
                i <= self.ids@.len(),
                ids == self@.ids,
                texts(self.ids@) == ids,
                texts(names@) == candidate@.dns_names,
                conflict(self@, id@, candidate@.dns_names, 0) == conflict(
                    self@,
                    id@,
                    candidate@.dns_names,
                    i as int,
                ),
            decreases self.ids@.len() - i,
        {
            let other_id = &self.ids[i];
            assert(ids[i as int] == other_id@);
            if !same_text(other_id, id) {
                match self.metadata.get(other_id) {
                    Some(existing) => {
                        assert(self@.metadata[other_id@] == existing@);
                        match find_shared(names, existing.dns_names()) {
                            Some(k) => {
                                let mut s = join3(
                                    "replacement TLS certificate ",
                                    &debug_of(id),
                                    " claims DNS SAN ",
                                );
                                append(&mut s, &debug_of(&names[k]));
                                append(&mut s, ", already owned by certificate ");
                                append(&mut s, &debug_of(other_id));
                                return Some(s);
                            },
                            None => {},
                        }
                    },
                    None => {},
                }
            }
            i += 1;
        }
        None
    }

    /// Holds a certificate that is to take the place of the one named `id` against those in
    /// service.
    pub fn validate_replacement(
        &self,
        id: &str,
        certificate_pem: &[u8],
        private_key_pem: &[u8],
    ) -> (r: Result<CertificateMetadata, String>)
        ensures
            ({
                let expected = replacement_result(
                    self@,
                    id@,
                    pair_result(id@, certificate_pem@, private_key_pem@),
                );
                match r {
                    Ok(metadata) => expected == Ok::<MetadataModel, Seq<char>>(metadata@),
                    Err(e) => expected == Err::<MetadataModel, Seq<char>>(e@),
                }
            }),
    {
        let candidate = match parse_certificate_pair(id, certificate_pem, private_key_pem) {
            Ok((_, candidate)) => candidate,
            Err(e) => {
                return Err(e);
            },
        };
        match self.replacement_conflict(id, &candidate) {
            Some(e) => Err(e),
            None => Ok(candidate),
        }
    }

    /// Whether the certificate that the configuration names as default is there, if it names one.
    pub fn default_certificate_available(&self, config: &TlsConfig) -> (r: bool)
        ensures
            r == (match config@.default_certificate {
                Some(id) => self@.metadata.contains_key(id),
                None => true,
            }),
    {
        match config.default_certificate() {
            Some(id) => self.metadata.contains_key(id),
            None => true,
        }
    }
}

/// A name is refused exactly where it is taken: a wildcard by a wildcard over the same domain, any
/// other name by that name. Otherwise it leads to the certificate, and nothing else changes.
pub proof fn law_taken_names_are_refused(
    index: IndexModel,
    name: Seq<char>,
    domain: Seq<char>,
    certified: CertifiedModel,
)
    ensures
        ({
            let r = with_name(index, seq!['*', '.'] + domain, certified);
            &&& r is Err <==> index.wildcard.contains_key(domain)
            &&& r is Ok ==> r->Ok_0 == (IndexModel {
                wildcard: index.wildcard.insert(domain, certified),
                ..index
            })
        }),
        ({
            let r = with_name(index, name, certified);
            !(name.len() >= 2 && name[0] == '*' && name[1] == '.') ==> {
                &&& r is Err <==> index.exact.contains_key(name)
                &&& r is Ok ==> r->Ok_0 == (IndexModel {
                    exact: index.exact.insert(name, certified),
                    ..index
                })
            }
        }),
{
    reveal_strlit("*.");
    let wildcard = seq!['*', '.'] + domain;
    assert("*."@ =~= seq!['*', '.']);
    assert(wildcard.subrange(0, 2) =~= "*."@);
    assert(is_wildcard(wildcard));
    assert(wildcard.skip(2) =~= domain);
    if is_wildcard(name) {
        assert(name.subrange(0, 2) == "*."@);
        assert(name[0] == name.subrange(0, 2)[0]);
        assert(name[1] == name.subrange(0, 2)[1]);
    }
}

proof fn lemma_wildcards_by_domain(a: Seq<char>, b: Seq<char>)
    requires
        is_wildcard(a),
        is_wildcard(b),
        a.skip(2) == b.skip(2),
    ensures
        a == b,
{
    reveal_strlit("*.");
    assert(a.subrange(0, 2) == b.subrange(0, 2));
    assert(a =~= a.subrange(0, 2) + a.skip(2));
    assert(b =~= b.subrange(0, 2) + b.skip(2));
}

/// The names of a certificate are taken in exactly where none of them leads to a certificate
/// already and no two of them are the same.
pub proof fn law_free_names_are_taken_in(
    index: IndexModel,
    names: Seq<Seq<char>>,
    certified: CertifiedModel,
    n: int,
)
    requires
        0 <= n <= names.len(),
    ensures
        with_names(index, names, certified, n) is Ok <==> {
            &&& forall|k: int|
                0 <= k < n ==> if "*."@.is_prefix_of(#[trigger] names[k]) {
                    !index.wildcard.contains_key(names[k].skip(2))
                } else {
                    !index.exact.contains_key(names[k])
                }
            &&& forall|j: int, k: int| 0 <= j < k < n ==> #[trigger] names[j] != #[trigger] names[k]
        },
    decreases n,
{
    if n > 0 {
        law_free_names_are_taken_in(index, names, certified, n - 1);
        let last = names[n - 1];
        if with_names(index, names, certified, n - 1) is Ok {
            let earlier = with_names(index, names, certified, n - 1)->Ok_0;
            lemma_only_names_are_added(index, names, certified, n - 1, last);
            if is_wildcard(last) {
                lemma_only_names_are_added(index, names, certified, n - 1, last.skip(2));
            }
            lemma_names_are_served(index, names, certified, n - 1, last, index.exact[last]);
            lemma_names_are_served(
                index,
                names,
                certified,
                n - 1,
                last,
                index.wildcard[last.skip(2)],
            );
            if with_names(index, names, certified, n) is Ok {
                assert forall|j: int, k: int| 0 <= j < k < n implies #[trigger] names[j]
                    != #[trigger] names[k] by {
                    if k == n - 1 && names[j] == last {
                        assert(serves(earlier, names[j], certified));
                    }
                }
            } else if forall|j: int, k: int|
                0 <= j < k < n ==> #[trigger] names[j] != #[trigger] names[k] {
                if is_wildcard(last) {
                    assert(earlier.wildcard.contains_key(last.skip(2)));
                    if !index.wildcard.contains_key(last.skip(2)) {
                        let k = choose|k: int|
                            0 <= k < n - 1 && is_wildcard(#[trigger] names[k]) && names[k].skip(2)
                                == last.skip(2);
                        lemma_wildcards_by_domain(names[k], last);
                        assert(names[k] == names[n - 1]);
                    }
                } else {
                    assert(earlier.exact.contains_key(last));
                    if !index.exact.contains_key(last) {
                        let k = choose|k: int|
                            0 <= k < n - 1 && !is_wildcard(#[trigger] names[k]) && names[k] == last;
                        assert(names[k] == names[n - 1]);
                    }
                }
                assert(names[n - 1] == last);
            }
        }
    }
}

proof fn lemma_only_names_are_added(
    index: IndexModel,
    names: Seq<Seq<char>>,
    certified: CertifiedModel,
    n: int,
    x: Seq<char>,
)
    requires
        0 <= n <= names.len(),
        with_names(index, names, certified, n) is Ok,
    ensures
        ({
            let named = with_names(index, names, certified, n)->Ok_0;
            &&& named.exact.contains_key(x) ==> {
                ||| index.exact.contains_key(x) && named.exact[x] == index.exact[x]
                ||| named.exact[x] == certified && exists|k: int|
                    0 <= k < n && !is_wildcard(#[trigger] names[k]) && names[k] == x
            }
            &&& named.wildcard.contains_key(x) ==> {
                ||| index.wildcard.contains_key(x) && named.wildcard[x] == index.wildcard[x]
                ||| named.wildcard[x] == certified && exists|k: int|
                    0 <= k < n && is_wildcard(#[trigger] names[k]) && names[k].skip(2) == x
            }
        }),
    decreases n,
{
    if n > 0 {
        lemma_only_names_are_added(index, names, certified, n - 1, x);
        let last = names[n - 1];
        assert(is_wildcard(last) || !is_wildcard(last));
    }
}

/// A certificate is taken in exactly where its files can be read and its names are free; its own
/// names then lead to it, and it is the default where the configuration names it so.
pub proof fn law_pairs_are_taken_in(index: IndexModel, config: TlsModel, pair: PairModel)
    ensures
        ({
            let parsed = pair_result(pair.id, pair.certificate, pair.key);
            let r = with_pair(index, config, pair);
            &&& parsed is Err ==> r is Err && r->Err_0 == parsed->Err_0
            &&& parsed matches Ok((certified, metadata)) ==> {
                let names = metadata.dns_names;
                let named = with_names(index, names, certified, names.len() as int);
                &&& r is Ok <==> named is Ok
                &&& r is Ok ==> {
                    &&& r->Ok_0.exact == named->Ok_0.exact
                    &&& r->Ok_0.wildcard == named->Ok_0.wildcard
                    &&& r->Ok_0.ids == index.ids.push(pair.id)
                    &&& r->Ok_0.metadata == index.metadata.insert(pair.id, metadata)
                    &&& config.default_certificate == Some(pair.id) ==> r->Ok_0.default == Some(
                        certified,
                    )
                    &&& config.default_certificate != Some(pair.id) ==> r->Ok_0.default
                        == index.default
                }
            }
        }),
{
    if let Ok((certified, metadata)) = pair_result(pair.id, pair.certificate, pair.key) {
        lemma_names_keep_metadata(
            index,
            metadata.dns_names,
            certified,
            metadata.dns_names.len() as int,
        );
    }
}

/// A name leads to a certificate only where the certificate bears the name: nothing else is served.
pub proof fn law_only_names_of_certificates_are_served(
    config: TlsModel,
    pairs: Seq<PairModel>,
    n: int,
    x: Seq<char>,
)
    requires
        0 <= n <= pairs.len(),
        index_result(config, pairs, n) is Ok,
    ensures
        ({
            let index = index_result(config, pairs, n)->Ok_0;
            &&& index.exact.contains_key(x) ==> exists|i: int|
                #![trigger pairs[i]]
                {
                    let parsed = pair_result(pairs[i].id, pairs[i].certificate, pairs[i].key);
                    0 <= i < n && parsed is Ok && index.exact[x] == parsed->Ok_0.0
                        && parsed->Ok_0.1.dns_names.contains(x)
                }
            &&& index.wildcard.contains_key(x) ==> exists|i: int|
                #![trigger pairs[i]]
                {
                    let parsed = pair_result(pairs[i].id, pairs[i].certificate, pairs[i].key);
                    0 <= i < n && parsed is Ok && index.wildcard[x] == parsed->Ok_0.0
                        && parsed->Ok_0.1.dns_names.contains("*."@ + x)
                }
        }),
    decreases n,
{
    if n > 0 {
        law_only_names_of_certificates_are_served(config, pairs, n - 1, x);
        let before = index_result(config, pairs, n - 1)->Ok_0;
        let pair = pairs[n - 1];
        let (certified, metadata) = pair_result(pair.id, pair.certificate, pair.key)->Ok_0;
        let names = metadata.dns_names;
        let named = with_names(before, names, certified, names.len() as int)->Ok_0;
        lemma_only_names_are_added(before, names, certified, names.len() as int, x);
        let index = index_result(config, pairs, n)->Ok_0;
        assert(index.exact == named.exact && index.wildcard == named.wildcard);
        if index.exact.contains_key(x) {
            if before.exact.contains_key(x) && named.exact[x] == before.exact[x] {
                let i = choose|i: int|
                    #![trigger pairs[i]]
                    {
                        let parsed = pair_result(pairs[i].id, pairs[i].certificate, pairs[i].key);
                        0 <= i < n - 1 && parsed is Ok && before.exact[x] == parsed->Ok_0.0
                            && parsed->Ok_0.1.dns_names.contains(x)
                    };
                assert(pairs[i] == pairs[i]);
            } else {
                assert(pairs[n - 1] == pair);
            }
        }
        if index.wildcard.contains_key(x) {
            if before.wildcard.contains_key(x) && named.wildcard[x] == before.wildcard[x] {
                let i = choose|i: int|
                    #![trigger pairs[i]]
                    {
                        let parsed = pair_result(pairs[i].id, pairs[i].certificate, pairs[i].key);
                        0 <= i < n - 1 && parsed is Ok && before.wildcard[x] == parsed->Ok_0.0
                            && parsed->Ok_0.1.dns_names.contains("*."@ + x)
                    };
                assert(pairs[i] == pairs[i]);
            } else {
                reveal_strlit("*.");
                let k = choose|k: int|
                    0 <= k < names.len() && is_wildcard(#[trigger] names[k]) && names[k].skip(2)
                        == x;
                assert(names[k] =~= "*."@ + x);
                assert(pairs[n - 1] == pair);
            }
        }
    }
}

/// The default is the certificate that the configuration names, the last one of that id, and there
/// is none where the configuration names none or one that was not taken in.
pub proof fn law_default_is_the_one_named(config: TlsModel, pairs: Seq<PairModel>, n: int, i: int)
    requires
        0 <= n <= pairs.len(),
        index_result(config, pairs, n) is Ok,
    ensures
        ({
            let index = index_result(config, pairs, n)->Ok_0;
            &&& 0 <= i < n && config.default_certificate == Some(pairs[i].id) && (forall|j: int|
                i < j < n ==> (#[trigger] pairs[j]).id != pairs[i].id) ==> index.default == Some(
                pair_result(pairs[i].id, pairs[i].certificate, pairs[i].key)->Ok_0.0,
            )
            &&& (forall|j: int|
                0 <= j < n ==> config.default_certificate != Some((#[trigger] pairs[j]).id))
                ==> index.default is None
        }),
    decreases n,
{
    if n > 0 {
        let before = index_result(config, pairs, n - 1)->Ok_0;
        law_default_is_the_one_named(config, pairs, n - 1, i);
        law_pairs_are_taken_in(before, config, pairs[n - 1]);
        assert(pairs[n - 1].id == pairs[n - 1].id);
    }
}

/// The ids are those of the certificates, in the order in which they were taken in, and only they
/// can be looked up.
pub proof fn law_ids_are_those_taken_in(
    config: TlsModel,
    pairs: Seq<PairModel>,
    n: int,
    id: Seq<char>,
)
    requires
        0 <= n <= pairs.len(),
        index_result(config, pairs, n) is Ok,
    ensures
        ({
            let index = index_result(config, pairs, n)->Ok_0;
            &&& index.ids.len() == n
            &&& forall|i: int| 0 <= i < n ==> index.ids[i] == (#[trigger] pairs[i]).id
            &&& index.metadata.contains_key(id) <==> index.ids.contains(id)
        }),
    decreases n,
{
    if n > 0 {
        let before = index_result(config, pairs, n - 1)->Ok_0;
        law_ids_are_those_taken_in(config, pairs, n - 1, id);
        law_pairs_are_taken_in(before, config, pairs[n - 1]);
        let index = index_result(config, pairs, n)->Ok_0;
        assert(index.ids == before.ids.push(pairs[n - 1].id));
        assert(index.ids[n - 1] == pairs[n - 1].id);
        if before.ids.contains(id) {
            let k = choose|k: int| 0 <= k < before.ids.len() && before.ids[k] == id;
            assert(index.ids[k] == id);
        }
        if index.ids.contains(id) && id != pairs[n - 1].id {
            let k = choose|k: int| 0 <= k < index.ids.len() && index.ids[k] == id;
            assert(before.ids[k] == id);
        }
    }
}

proof fn lemma_first_shared(names: Seq<Seq<char>>, existing: Seq<Seq<char>>, k: int)
    requires
        0 <= k <= names.len(),
    ensures
        match first_shared(names, existing, k) {
            Some(name) => existing.contains(name) && exists|j: int|
                k <= j < names.len() && #[trigger] names[j] == name,
            None => forall|j: int| k <= j < names.len() ==> !existing.contains(#[trigger] names[j]),
        },
    decreases names.len() - k,
{
    if k < names.len() && !existing.contains(names[k]) {
        lemma_first_shared(names, existing, k + 1);
        if let Some(name) = first_shared(names, existing, k + 1) {
            let j = choose|j: int| k + 1 <= j < names.len() && #[trigger] names[j] == name;
            assert(names[j] == name);
        }
    } else if k < names.len() {
        assert(names[k] == names[k]);
    }
}

proof fn lemma_conflict(index: IndexModel, id: Seq<char>, names: Seq<Seq<char>>, i: int)
    requires
        0 <= i <= index.ids.len(),
    ensures
        conflict(index, id, names, i) is Some <==> exists|j: int, k: int|
            #![trigger index.ids[j], names[k]]
            {
                let other = index.ids[j];
                i <= j < index.ids.len() && other != id && index.metadata.contains_key(other) && 0
                    <= k < names.len() && index.metadata[other].dns_names.contains(names[k])
            },
    decreases index.ids.len() - i,
{
    if i < index.ids.len() {
        let other = index.ids[i];
        lemma_conflict(index, id, names, i + 1);
        lemma_first_shared(names, index.metadata[other].dns_names, 0);
        let here = other != id && index.metadata.contains_key(other) && first_shared(
            names,
            index.metadata[other].dns_names,
            0,
        ) is Some;
        if here {
            let k = choose|k: int|
                0 <= k < names.len() && #[trigger] names[k] == first_shared(
                    names,
                    index.metadata[other].dns_names,
                    0,
                )->0;
            assert(index.ids[i] == other);
            assert(index.metadata[other].dns_names.contains(names[k]));
        } else if conflict(index, id, names, i + 1) is Some {
            let (j, k) = choose|j: int, k: int|
                #![trigger index.ids[j], names[k]]
                {
                    let other = index.ids[j];
                    i + 1 <= j < index.ids.len() && other != id && index.metadata.contains_key(
                        other,
                    ) && 0 <= k < names.len() && index.metadata[other].dns_names.contains(names[k])
                };
            assert(index.ids[j] == index.ids[j] && names[k] == names[k]);
        }
    }
}

/// A certificate may take the place of the one named `id` exactly where its files can be read and no
/// other certificate in service bears one of its names. What is then known of it is what its files
/// say, and files that cannot be read are refused for their own reason.
pub proof fn law_replacements_take_no_name_of_another(
    index: IndexModel,
    id: Seq<char>,
    parsed: Result<(CertifiedModel, MetadataModel), Seq<char>>,
)
    ensures
        ({
            let r = replacement_result(index, id, parsed);
            &&& parsed matches Err(e) ==> r == Err::<MetadataModel, Seq<char>>(e)
            &&& parsed matches Ok((_, metadata)) ==> {
                &&& r is Err <==> exists|j: int, k: int|
                    #![trigger index.ids[j], metadata.dns_names[k]]
                    {
                        let other = index.ids[j];
                        0 <= j < index.ids.len() && other != id && index.metadata.contains_key(
                            other,
                        ) && 0 <= k < metadata.dns_names.len()
                            && index.metadata[other].dns_names.contains(metadata.dns_names[k])
                    }
                &&& r is Ok ==> r->Ok_0 == metadata
            }
        }),
{
    if let Ok((_, metadata)) = parsed {
        lemma_conflict(index, id, metadata.dns_names, 0);
    }
}

} // verus!
