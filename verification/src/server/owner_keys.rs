//! What this node tells its peers of Canton: which owner keys of decentralized
//! parties are its own, and which packages it has.

use vstd::prelude::*;
use vstd::string::*;

use crate::map::TextMap;
use crate::outside;
use crate::text;

verus! {

/// The namespace of a party: what follows the last double colon of its id.
pub open spec fn namespace_of(party: Seq<char>) -> Option<Seq<char>> {
    if text::occurs_in(party, "::"@) {
        let at = choose|at: int| text::last_occurrence(party, "::"@, at);
        Some(party.skip(at + 2))
    } else {
        None
    }
}

/// The namespace of a party: what follows the last double colon of its id.
pub fn namespace(party: &str) -> (found: Option<String>)
    ensures
        text::text_of(found) == namespace_of(party@),
{
    proof {
        reveal_strlit("::");
    }
    let found = text::after_last(party, "::");
    proof {
        if found is Some {
            let at = choose|at: int|
                text::last_occurrence(party@, "::"@, at) && found.unwrap()@ == party@.skip(at + 2);
            assert(text::occurs_at(party@, "::"@, at));
            let other = choose|at: int| text::last_occurrence(party@, "::"@, at);
            assert(text::occurs_at(party@, "::"@, other));
            assert(at == other);
        }
    }
    found
}

/// The parties that are asked for, by namespace: of two with one namespace, the
/// later counts, and one without a namespace is left out.
pub open spec fn by_namespace(parties: Seq<Seq<char>>) -> Map<Seq<char>, Seq<char>>
    decreases parties.len(),
{
    if parties.len() == 0 {
        Map::empty()
    } else {
        let before = by_namespace(parties.drop_last());
        match namespace_of(parties.last()) {
            Some(ns) => before.insert(ns, parties.last()),
            None => before,
        }
    }
}

/// What a map to strings says.
pub open spec fn text_values(m: Map<Seq<char>, String>) -> Map<Seq<char>, Seq<char>> {
    m.map_values(|s: String| s@)
}

/// The parties that are asked for, by namespace.
pub fn parties_by_namespace(parties: &Vec<String>) -> (found: TextMap<String>)
    ensures
        text_values(found@) == by_namespace(text::texts(parties@)),
{
    let mut found: TextMap<String> = TextMap::new();
    let ghost all = text::texts(parties@);
    let mut i: usize = 0;
    proof {
        assert(text_values(found@) =~= by_namespace(all.take(0)));
    }
    while i < parties.len()
        invariant
            i <= parties@.len(),
            all == text::texts(parties@),
            text_values(found@) == by_namespace(all.take(i as int)),
        decreases parties@.len() - i,
    {
        proof {
            assert(all.take(i + 1).drop_last() =~= all.take(i as int));
            assert(all.take(i + 1).last() == parties@[i as int]@);
        }
        if let Some(ns) = namespace(parties[i].as_str()) {
            let ghost was = found@;
            let party = parties[i].clone();
            found.insert(ns, party);
            proof {
                assert(text_values(found@) =~= text_values(was).insert(ns@, party@));
            }
        }
        i += 1;
    }
    proof {
        assert(all.take(i as int) =~= all);
    }
    found
}

/// A signing key of this node.
pub struct SigningKey {
    pub usage: Vec<i32>,
    pub fingerprint: String,
}

/// The usage of a key that signs for a namespace.
pub const NAMESPACE_USAGE: i32 = 1;

/// The keys that sign for a namespace.
pub open spec fn signs_namespaces() -> spec_fn(SigningKey) -> bool {
    |key: SigningKey| key.usage@.contains(NAMESPACE_USAGE)
}

/// The fingerprints of keys.
pub open spec fn fingerprints(keys: Seq<SigningKey>) -> Seq<Seq<char>> {
    keys.map_values(|key: SigningKey| key.fingerprint@)
}

/// Whether the key signs for a namespace.
fn for_namespace(key: &SigningKey) -> (yes: bool)
    ensures
        yes == key.usage@.contains(NAMESPACE_USAGE),
{
    let mut i: usize = 0;
    while i < key.usage.len()
        invariant
            i <= key.usage@.len(),
            forall|j: int| 0 <= j < i ==> key.usage@[j] != NAMESPACE_USAGE,
        decreases key.usage@.len() - i,
    {
        if key.usage[i] == NAMESPACE_USAGE {
            return true;
        }
        i += 1;
    }
    false
}

/// The fingerprints of the keys that sign for a namespace, in order.
pub fn namespace_fingerprints(keys: &Vec<SigningKey>) -> (found: Vec<String>)
    ensures
        text::texts(found@) == fingerprints(keys@.filter(signs_namespaces())),
{
    let ghost p = signs_namespaces();
    let mut found: Vec<String> = Vec::new();
    let mut i: usize = 0;
    proof {
        assert(keys@.take(0).filter(p) =~= Seq::<SigningKey>::empty()) by {
            reveal(Seq::filter);
        }
        assert(text::texts(found@) =~= fingerprints(keys@.take(0).filter(p)));
    }
    while i < keys.len()
        invariant
            i <= keys@.len(),
            p == signs_namespaces(),
            text::texts(found@) == fingerprints(keys@.take(i as int).filter(p)),
        decreases keys@.len() - i,
    {
        proof {
            crate::counting::lemma_filter_take(keys@, p, i as int);
        }
        if for_namespace(&keys[i]) {
            let ghost was = found@;
            let ghost before = keys@.take(i as int).filter(p);
            found.push(keys[i].fingerprint.clone());
            proof {
                assert(text::texts(found@) =~= text::texts(was).push(keys@[i as int].fingerprint@));
                assert(fingerprints(before.push(keys@[i as int])) =~= fingerprints(before).push(
                    keys@[i as int].fingerprint@,
                ));
            }
        }
        i += 1;
    }
    proof {
        assert(keys@.take(i as int) =~= keys@);
    }
    found
}

/// Who owns a decentralized namespace, by the fingerprints of their keys.
pub struct NamespaceDefinition {
    pub namespace: String,
    pub owners: Vec<String>,
}

/// An owner key of a party.
pub struct OwnerKey {
    pub party_id: String,
    pub owner_key: String,
}

/// What owner keys say: the party, and the key.
pub open spec fn owner_key_texts(keys: Seq<OwnerKey>) -> Seq<(Seq<char>, Seq<char>)> {
    keys.map_values(|k: OwnerKey| (k.party_id@, k.owner_key@))
}

/// The owners of a party that are among the fingerprints, in order.
pub open spec fn own_keys(
    party: Seq<char>,
    owners: Seq<Seq<char>>,
    mine: Seq<Seq<char>>,
) -> Seq<(Seq<char>, Seq<char>)>
    decreases owners.len(),
{
    if owners.len() == 0 {
        Seq::empty()
    } else {
        let before = own_keys(party, owners.drop_last(), mine);
        if mine.contains(owners.last()) {
            before.push((party, owners.last()))
        } else {
            before
        }
    }
}

/// What a definition adds: the owners among the fingerprints, where its
/// namespace is asked for.
pub open spec fn own_keys_of(
    definition: Option<NamespaceDefinition>,
    asked: Map<Seq<char>, Seq<char>>,
    mine: Seq<Seq<char>>,
) -> Seq<(Seq<char>, Seq<char>)> {
    match definition {
        Some(d) => if asked.contains_key(d.namespace@) {
            own_keys(asked[d.namespace@], text::texts(d.owners@), mine)
        } else {
            Seq::empty()
        },
        None => Seq::empty(),
    }
}

/// The owner keys among the fingerprints of the parties that are asked for, in
/// the order of the definitions.
pub open spec fn all_own_keys(
    definitions: Seq<Option<NamespaceDefinition>>,
    asked: Map<Seq<char>, Seq<char>>,
    mine: Seq<Seq<char>>,
) -> Seq<(Seq<char>, Seq<char>)>
    decreases definitions.len(),
{
    if definitions.len() == 0 {
        Seq::empty()
    } else {
        all_own_keys(definitions.drop_last(), asked, mine) + own_keys_of(
            definitions.last(),
            asked,
            mine,
        )
    }
}

/// Adds the owners of a party that are among the fingerprints.
fn add_own_keys(entries: &mut Vec<OwnerKey>, party: &String, owners: &Vec<String>, mine: &Vec<
    String,
>)
    ensures
        owner_key_texts(final(entries)@) == owner_key_texts(old(entries)@) + own_keys(
            party@,
            text::texts(owners@),
            text::texts(mine@),
        ),
{
    let ghost start = owner_key_texts(entries@);
    let ghost all = text::texts(owners@);
    let mut i: usize = 0;
    proof {
        assert(owner_key_texts(entries@) =~= start + own_keys(
            party@,
            all.take(0),
            text::texts(mine@),
        ));
    }
    while i < owners.len()
        invariant
            i <= owners@.len(),
            all == text::texts(owners@),
            owner_key_texts(entries@) == start + own_keys(
                party@,
                all.take(i as int),
                text::texts(mine@),
            ),
        decreases owners@.len() - i,
    {
        proof {
            assert(all.take(i + 1).drop_last() =~= all.take(i as int));
            assert(all.take(i + 1).last() == owners@[i as int]@);
        }
        if text::one_of(mine, &owners[i]) {
            let ghost was = entries@;
            let ghost before = own_keys(party@, all.take(i as int), text::texts(mine@));
            entries.push(OwnerKey { party_id: party.clone(), owner_key: owners[i].clone() });
            proof {
                assert(owner_key_texts(entries@) =~= owner_key_texts(was).push(
                    (party@, owners@[i as int]@),
                ));
                assert((start + before).push((party@, owners@[i as int]@)) =~= start + before.push(
                    (party@, owners@[i as int]@),
                ));
            }
        }
        i += 1;
    }
    proof {
        assert(all.take(i as int) =~= all);
    }
}

/// The owner keys among the fingerprints of the parties that are asked for.
pub fn match_owner_keys(
    definitions: &Vec<Option<NamespaceDefinition>>,
    asked: &TextMap<String>,
    mine: &Vec<String>,
) -> (entries: Vec<OwnerKey>)
    ensures
        owner_key_texts(entries@) == all_own_keys(
            definitions@,
            text_values(asked@),
            text::texts(mine@),
        ),
{
    let mut entries: Vec<OwnerKey> = Vec::new();
    let mut i: usize = 0;
    proof {
        assert(owner_key_texts(entries@) =~= all_own_keys(
            definitions@.take(0),
            text_values(asked@),
            text::texts(mine@),
        ));
    }
    while i < definitions.len()
        invariant
            i <= definitions@.len(),
            owner_key_texts(entries@) == all_own_keys(
                definitions@.take(i as int),
                text_values(asked@),
                text::texts(mine@),
            ),
        decreases definitions@.len() - i,
    {
        proof {
            assert(definitions@.take(i + 1).drop_last() =~= definitions@.take(i as int));
            assert(definitions@.take(i + 1).last() == definitions@[i as int]);
            let before = owner_key_texts(entries@);
            assert(before + Seq::<(Seq<char>, Seq<char>)>::empty() =~= before);
        }
        if let Some(definition) = &definitions[i] {
            if let Some(party) = asked.get(definition.namespace.as_str()) {
                add_own_keys(&mut entries, party, &definition.owners, mine);
            }
        }
        i += 1;
    }
    proof {
        assert(definitions@.take(i as int) =~= definitions@);
    }
    entries
}

/// The fields of an owner key in JSON.
pub open spec fn owner_key_fields(key: (Seq<char>, Seq<char>)) -> Seq<(Seq<char>, Seq<char>)> {
    seq![("party_id"@, key.0), ("owner_key"@, key.1)]
}

/// Owner keys as JSON objects.
pub fn owner_key_objects(entries: Vec<OwnerKey>) -> (objects: Vec<Vec<(String, String)>>)
    ensures
        outside::object_texts(objects@) == owner_key_texts(entries@).map_values(
            |k: (Seq<char>, Seq<char>)| owner_key_fields(k),
        ),
{
    let mut objects: Vec<Vec<(String, String)>> = Vec::new();
    let ghost said = owner_key_texts(entries@);
    let mut i: usize = 0;
    while i < entries.len()
        invariant
            i <= entries@.len(),
            objects@.len() == i,
            said == owner_key_texts(entries@),
            forall|j: int|
                0 <= j < i ==> outside::field_texts(#[trigger] objects@[j]@) == owner_key_fields(
                    said[j],
                ),
        decreases entries@.len() - i,
    {
        let mut fields: Vec<(String, String)> = Vec::new();
        fields.push(("party_id".to_owned(), entries[i].party_id.clone()));
        fields.push(("owner_key".to_owned(), entries[i].owner_key.clone()));
        proof {
            assert(outside::field_texts(fields@) =~= owner_key_fields(said[i as int]));
        }
        objects.push(fields);
        i += 1;
    }
    proof {
        assert(outside::object_texts(objects@) =~= said.map_values(
            |k: (Seq<char>, Seq<char>)| owner_key_fields(k),
        ));
    }
    objects
}

/// How a question for owner keys goes on.
pub enum OwnerKeysStep {
    /// Not at all: this is the listing.
    Done(Vec<u8>),
    /// With Canton's answers, for these parties by namespace.
    Query(TextMap<String>),
}

/// How a question for the owner keys of some parties goes on: Canton is asked
/// only where at least one party has a namespace.
pub fn start_owner_keys(parties: &Vec<String>) -> (step: OwnerKeysStep)
    ensures
        ({
            let asked = by_namespace(text::texts(parties@));
            if asked == Map::<Seq<char>, Seq<char>>::empty() {
                step matches OwnerKeysStep::Done(json) && json@
                    == crate::server::listener::empty_list()
            } else {
                step matches OwnerKeysStep::Query(found) && text_values(found@) == asked
            }
        }),
{
    let found = parties_by_namespace(parties);
    if found.is_empty() {
        let json: Vec<u8> = vec![0x5b, 0x5d];
        proof {
            assert(text_values(found@) =~= Map::empty());
            assert(json@ =~= crate::server::listener::empty_list());
        }
        OwnerKeysStep::Done(json)
    } else {
        proof {
            if text_values(found@) == Map::<Seq<char>, Seq<char>>::empty() {
                assert forall|k: Seq<char>| !#[trigger] found@.contains_key(k) by {
                    assert(found@.contains_key(k) == text_values(found@).contains_key(k));
                }
                assert(found@ =~= Map::empty());
            }
        }
        OwnerKeysStep::Query(found)
    }
}

/// The listing of this node's owner keys of the parties that are asked for, by
/// what Canton answered; nothing where it cannot be written.
pub fn list_my_owner_keys(
    asked: &TextMap<String>,
    keys: &Vec<SigningKey>,
    definitions: &Vec<Option<NamespaceDefinition>>,
) -> (json: Option<Vec<u8>>)
    ensures
        ({
            let said = outside::json_of_objects(
                all_own_keys(
                    definitions@,
                    text_values(asked@),
                    fingerprints(keys@.filter(signs_namespaces())),
                ).map_values(|k: (Seq<char>, Seq<char>)| owner_key_fields(k)),
            );
            match json {
                Some(bytes) => said == Some(bytes@),
                None => said is None,
            }
        }),
{
    let mine = namespace_fingerprints(keys);
    let entries = match_owner_keys(definitions, asked, &mine);
    outside::write_json_objects(owner_key_objects(entries))
}

/// A package of this node.
pub struct PackageDescription {
    pub package_id: String,
    pub name: String,
    pub version: String,
}

/// The fields of a package in JSON.
pub open spec fn package_fields(p: PackageDescription) -> Seq<(Seq<char>, Seq<char>)> {
    seq![("package_id"@, p.package_id@), ("name"@, p.name@), ("version"@, p.version@)]
}

/// Packages as JSON objects.
pub fn package_objects(packages: &Vec<PackageDescription>) -> (objects: Vec<Vec<(String, String)>>)
    ensures
        outside::object_texts(objects@) == packages@.map_values(
            |p: PackageDescription| package_fields(p),
        ),
{
    let mut objects: Vec<Vec<(String, String)>> = Vec::new();
    let mut i: usize = 0;
    while i < packages.len()
        invariant
            i <= packages@.len(),
            objects@.len() == i,
            forall|j: int|
                0 <= j < i ==> outside::field_texts(#[trigger] objects@[j]@) == package_fields(
                    packages@[j],
                ),
        decreases packages@.len() - i,
    {
        let mut fields: Vec<(String, String)> = Vec::new();
        fields.push(("package_id".to_owned(), packages[i].package_id.clone()));
        fields.push(("name".to_owned(), packages[i].name.clone()));
        fields.push(("version".to_owned(), packages[i].version.clone()));
        proof {
            assert(outside::field_texts(fields@) =~= package_fields(packages@[i as int]));
        }
        objects.push(fields);
        i += 1;
    }
    proof {
        assert(outside::object_texts(objects@) =~= packages@.map_values(
            |p: PackageDescription| package_fields(p),
        ));
    }
    objects
}

/// The listing of this node's packages; nothing where it cannot be written.
pub fn list_local_packages(packages: &Vec<PackageDescription>) -> (json: Option<Vec<u8>>)
    ensures
        ({
            let said = outside::json_of_objects(
                packages@.map_values(|p: PackageDescription| package_fields(p)),
            );
            match json {
                Some(bytes) => said == Some(bytes@),
                None => said is None,
            }
        }),
{
    outside::write_json_objects(package_objects(packages))
}

/// The definition says that the fingerprint owns the party, which is asked for.
pub open spec fn defines_owner(
    definition: Option<NamespaceDefinition>,
    asked: Map<Seq<char>, Seq<char>>,
    party: Seq<char>,
    owner: Seq<char>,
) -> bool {
    definition matches Some(d) && asked.contains_key(d.namespace@) && asked[d.namespace@] == party
        && text::texts(d.owners@).contains(owner)
}

/// An owner that is among the fingerprints is among a party's own keys.
proof fn lemma_own_keys(
    party: Seq<char>,
    owners: Seq<Seq<char>>,
    mine: Seq<Seq<char>>,
    entry: (Seq<char>, Seq<char>),
)
    ensures
        own_keys(party, owners, mine).contains(entry) <==> entry.0 == party && owners.contains(
            entry.1,
        ) && mine.contains(entry.1),
    decreases owners.len(),
{
    if owners.len() > 0 {
        let front = owners.drop_last();
        let before = own_keys(party, front, mine);
        let all = own_keys(party, owners, mine);
        lemma_own_keys(party, front, mine, entry);
        if front.contains(entry.1) {
            let k = choose|k: int| 0 <= k < front.len() && front[k] == entry.1;
            assert(owners[k] == entry.1);
        }
        if owners.contains(entry.1) && entry.1 != owners.last() {
            let k = choose|k: int| 0 <= k < owners.len() && owners[k] == entry.1;
            assert(front[k] == entry.1);
        }
        assert(owners[owners.len() - 1] == owners.last());
        if mine.contains(owners.last()) {
            if before.contains(entry) {
                let k = choose|k: int| 0 <= k < before.len() && before[k] == entry;
                assert(all[k] == entry);
            }
            assert(all[before.len() as int] == (party, owners.last()));
            if all.contains(entry) && entry != (party, owners.last()) {
                let k = choose|k: int| 0 <= k < all.len() && all[k] == entry;
                assert(before[k] == entry);
            }
        }
    }
}

/// The listing names an owner key of a party exactly where the party is asked
/// for, Canton says that the key owns it, and the key is this node's.
pub proof fn law_listing_names_own_keys_only(
    definitions: Seq<Option<NamespaceDefinition>>,
    asked: Map<Seq<char>, Seq<char>>,
    mine: Seq<Seq<char>>,
    party: Seq<char>,
    owner: Seq<char>,
)
    ensures
        all_own_keys(definitions, asked, mine).contains((party, owner)) <==> mine.contains(owner)
            && exists|i: int|
            0 <= i < definitions.len() && defines_owner(
                #[trigger] definitions[i],
                asked,
                party,
                owner,
            ),
    decreases definitions.len(),
{
    let entry = (party, owner);
    if definitions.len() > 0 {
        let front = definitions.drop_last();
        let last = definitions.last();
        let before = all_own_keys(front, asked, mine);
        let added = own_keys_of(last, asked, mine);
        let all = all_own_keys(definitions, asked, mine);
        law_listing_names_own_keys_only(front, asked, mine, party, owner);
        if let Some(d) = last {
            if asked.contains_key(d.namespace@) {
                lemma_own_keys(asked[d.namespace@], text::texts(d.owners@), mine, entry);
            }
        }
        assert(added.contains(entry) <==> mine.contains(owner) && defines_owner(
            last,
            asked,
            party,
            owner,
        ));
        assert(all.contains(entry) <==> before.contains(entry) || added.contains(entry)) by {
            if before.contains(entry) {
                let k = choose|k: int| 0 <= k < before.len() && before[k] == entry;
                assert(all[k] == entry);
            }
            if added.contains(entry) {
                let k = choose|k: int| 0 <= k < added.len() && added[k] == entry;
                assert(all[before.len() + k] == entry);
            }
            if all.contains(entry) {
                let k = choose|k: int| 0 <= k < all.len() && all[k] == entry;
                if k < before.len() {
                    assert(before[k] == entry);
                } else {
                    assert(added[k - before.len()] == entry);
                }
            }
        }
        if exists|i: int|
            0 <= i < front.len() && defines_owner(#[trigger] front[i], asked, party, owner) {
            let i = choose|i: int|
                0 <= i < front.len() && defines_owner(#[trigger] front[i], asked, party, owner);
            assert(definitions[i] == front[i]);
        }
        if exists|i: int|
            0 <= i < definitions.len() && defines_owner(
                #[trigger] definitions[i],
                asked,
                party,
                owner,
            ) && i < definitions.len() - 1 {
            let i = choose|i: int|
                0 <= i < definitions.len() && defines_owner(
                    #[trigger] definitions[i],
                    asked,
                    party,
                    owner,
                ) && i < definitions.len() - 1;
            assert(front[i] == definitions[i]);
        }
        assert(definitions[definitions.len() - 1] == last);
    }
}

/// Only parties that are in the request are ever looked up, each under its own
/// namespace.
pub proof fn law_only_requested_parties(parties: Seq<Seq<char>>, ns: Seq<char>)
    requires
        by_namespace(parties).contains_key(ns),
    ensures
        parties.contains(by_namespace(parties)[ns]),
        namespace_of(by_namespace(parties)[ns]) == Some(ns),
    decreases parties.len(),
{
    if parties.len() > 0 {
        let front = parties.drop_last();
        if namespace_of(parties.last()) == Some(ns) {
            assert(parties[parties.len() - 1] == parties.last());
        } else {
            law_only_requested_parties(front, ns);
            let k = choose|k: int| 0 <= k < front.len() && front[k] == by_namespace(front)[ns];
            assert(parties[k] == front[k]);
        }
    }
}

/// The namespace of a party is what follows the last double colon of its id: there
/// is one exactly where the id holds one, and after it comes none.
pub proof fn law_namespace_follows_the_last_colons(front: Seq<char>, ns: Seq<char>, party: Seq<char>)
    ensures
        party == front + "::"@ + ns && !text::occurs_in(seq![':'] + ns, "::"@) ==> namespace_of(
            party,
        ) == Some(ns),
        namespace_of(party) is None <==> !text::occurs_in(party, "::"@),
{
    reveal_strlit("::");
    let colons = "::"@;
    if party == front + colons + ns && !text::occurs_in(seq![':'] + ns, colons) {
        let at = front.len() as int;
        assert(party.subrange(at, at + 2) =~= colons);
        assert(text::occurs_at(party, colons, at));
        assert forall|j: int| text::occurs_at(party, colons, j) implies j <= at by {
            if j > at {
                let rest = seq![':'] + ns;
                assert(rest =~= party.skip(at + 1));
                assert(rest.subrange(j - at - 1, j - at + 1) =~= party.subrange(j, j + 2));
                assert(text::occurs_at(rest, colons, j - at - 1));
            }
        }
        assert(text::last_occurrence(party, colons, at));
        let found = choose|k: int| text::last_occurrence(party, colons, k);
        assert(text::last_occurrence(party, colons, found));
        assert(found == at);
        assert(party.skip(at + 2) =~= ns);
    }
}

/// Of the parties in a request with one namespace the last is the one that is
/// looked up; a party without a namespace is passed over.
pub proof fn law_last_party_of_a_namespace_counts(
    parties: Seq<Seq<char>>,
    i: int,
    ns: Seq<char>,
)
    requires
        0 <= i < parties.len(),
        namespace_of(parties[i]) == Some(ns),
        forall|j: int| i < j < parties.len() ==> namespace_of(#[trigger] parties[j]) != Some(ns),
    ensures
        by_namespace(parties).contains_key(ns),
        by_namespace(parties)[ns] == parties[i],
    decreases parties.len(),
{
    let last = parties.len() - 1;
    if i < last {
        let front = parties.drop_last();
        assert(front[i] == parties[i]);
        assert forall|j: int| i < j < front.len() implies namespace_of(#[trigger] front[j])
            != Some(ns) by {
            assert(namespace_of(parties[j]) != Some(ns));
        }
        law_last_party_of_a_namespace_counts(front, i, ns);
        assert(namespace_of(parties[last]) != Some(ns));
    }
}

/// Canton is asked exactly where a party in the request has a namespace; else the
/// listing is empty.
pub proof fn law_canton_is_asked_where_it_can_tell(
    parties: Vec<String>,
    step: OwnerKeysStep,
)
    requires
        call_ensures(start_owner_keys, (&parties,), step),
    ensures
        step is Query <==> exists|i: int|
            0 <= i < parties@.len() && namespace_of(#[trigger] parties@[i]@) is Some,
        step matches OwnerKeysStep::Done(json) ==> json@ == seq![0x5bu8, 0x5du8],
{
    let all = text::texts(parties@);
    lemma_some_namespace(all);
    if exists|i: int| 0 <= i < parties@.len() && namespace_of(#[trigger] parties@[i]@) is Some {
        let i = choose|i: int|
            0 <= i < parties@.len() && namespace_of(#[trigger] parties@[i]@) is Some;
        assert(namespace_of(all[i]) is Some);
    }
    if exists|i: int| 0 <= i < all.len() && namespace_of(#[trigger] all[i]) is Some {
        let i = choose|i: int| 0 <= i < all.len() && namespace_of(#[trigger] all[i]) is Some;
        assert(namespace_of(parties@[i]@) is Some);
    }
}

/// Something is looked up exactly where a party has a namespace.
proof fn lemma_some_namespace(parties: Seq<Seq<char>>)
    ensures
        by_namespace(parties) == Map::<Seq<char>, Seq<char>>::empty() <==> !exists|i: int|
            0 <= i < parties.len() && namespace_of(#[trigger] parties[i]) is Some,
    decreases parties.len(),
{
    if parties.len() > 0 {
        let front = parties.drop_last();
        let last = parties.len() - 1;
        lemma_some_namespace(front);
        if let Some(ns) = namespace_of(parties[last]) {
            assert(by_namespace(parties).contains_key(ns));
        } else {
            if exists|i: int| 0 <= i < parties.len() && namespace_of(#[trigger] parties[i]) is Some {
                let i = choose|i: int|
                    0 <= i < parties.len() && namespace_of(#[trigger] parties[i]) is Some;
                assert(namespace_of(front[i]) is Some);
            }
            if exists|i: int| 0 <= i < front.len() && namespace_of(#[trigger] front[i]) is Some {
                let i = choose|i: int|
                    0 <= i < front.len() && namespace_of(#[trigger] front[i]) is Some;
                assert(namespace_of(parties[i]) is Some);
            }
        }
    }
}

/// A fingerprint of this node counts exactly where one of its keys has it whose
/// uses include the first, to sign for a namespace.
pub proof fn law_namespace_keys_are_those_of_that_use(keys: Seq<SigningKey>, fingerprint: Seq<char>)
    ensures
        fingerprints(keys.filter(signs_namespaces())).contains(fingerprint) <==> exists|i: int|
            0 <= i < keys.len() && (#[trigger] keys[i]).fingerprint@ == fingerprint
                && keys[i].usage@.contains(1i32),
{
    let p = signs_namespaces();
    let signing = keys.filter(p);
    let found = fingerprints(signing);
    if found.contains(fingerprint) {
        let k = choose|k: int| 0 <= k < found.len() && found[k] == fingerprint;
        let i = crate::counting::lemma_filter_position(keys, p, k);
        assert(keys[i].fingerprint@ == fingerprint);
    }
    if exists|i: int|
        0 <= i < keys.len() && (#[trigger] keys[i]).fingerprint@ == fingerprint
            && keys[i].usage@.contains(1i32) {
        let i = choose|i: int|
            0 <= i < keys.len() && (#[trigger] keys[i]).fingerprint@ == fingerprint
                && keys[i].usage@.contains(1i32);
        let k = crate::counting::lemma_filtered_position(keys, p, i);
        assert(found[k] == fingerprint);
    }
}

/// The listing follows the order of Canton's answers: what two lists of answers
/// give together is what the one gives and then what the other gives.
pub proof fn law_listing_follows_the_definitions(
    first: Seq<Option<NamespaceDefinition>>,
    second: Seq<Option<NamespaceDefinition>>,
    asked: Map<Seq<char>, Seq<char>>,
    mine: Seq<Seq<char>>,
)
    ensures
        all_own_keys(first + second, asked, mine) == all_own_keys(first, asked, mine)
            + all_own_keys(second, asked, mine),
    decreases second.len(),
{
    if second.len() == 0 {
        assert(first + second =~= first);
        assert(all_own_keys(first, asked, mine) + all_own_keys(second, asked, mine)
            =~= all_own_keys(first, asked, mine));
    } else {
        assert((first + second).drop_last() =~= first + second.drop_last());
        assert((first + second).last() == second.last());
        law_listing_follows_the_definitions(first, second.drop_last(), asked, mine);
        assert(all_own_keys(first + second, asked, mine) =~= all_own_keys(first, asked, mine)
            + all_own_keys(second, asked, mine));
    }
}

/// One answer gives each owner that is this node's once for each time it is named,
/// in the order of the owners, for the party that is asked for.
pub proof fn law_owners_are_listed_in_order(
    party: Seq<char>,
    first: Seq<Seq<char>>,
    owner: Seq<char>,
    mine: Seq<Seq<char>>,
)
    ensures
        own_keys(party, first.push(owner), mine) == if mine.contains(owner) {
            own_keys(party, first, mine).push((party, owner))
        } else {
            own_keys(party, first, mine)
        },
        own_keys(party, Seq::empty(), mine).len() == 0,
{
    assert(first.push(owner).drop_last() =~= first);
}

/// An owner key is written with its party and its key, a package with its id, its
/// name and its version, each under that name.
pub proof fn law_objects_hold_what_they_are_of(
    party: Seq<char>,
    owner: Seq<char>,
    package: PackageDescription,
)
    ensures
        owner_key_fields((party, owner)).len() == 2,
        owner_key_fields((party, owner))[0] == ("party_id"@, party),
        owner_key_fields((party, owner))[1] == ("owner_key"@, owner),
        package_fields(package).len() == 3,
        package_fields(package)[0] == ("package_id"@, package.package_id@),
        package_fields(package)[1] == ("name"@, package.name@),
        package_fields(package)[2] == ("version"@, package.version@),
{
}

/// The listing that is written holds an owner key of a party exactly where the
/// party is asked for, Canton says that the key owns it, and a key of this node
/// that signs for namespaces has that fingerprint.
pub proof fn law_written_listing_names_own_keys_only(
    asked: TextMap<String>,
    keys: Vec<SigningKey>,
    definitions: Vec<Option<NamespaceDefinition>>,
    json: Option<Vec<u8>>,
) -> (entries: Seq<(Seq<char>, Seq<char>)>)
    requires
        call_ensures(list_my_owner_keys, (&asked, &keys, &definitions), json),
    ensures
        match json {
            Some(bytes) => outside::json_of_objects(
                Seq::new(
                    entries.len(),
                    |i: int| seq![("party_id"@, entries[i].0), ("owner_key"@, entries[i].1)],
                ),
            ) == Some(bytes@),
            None => outside::json_of_objects(
                Seq::new(
                    entries.len(),
                    |i: int| seq![("party_id"@, entries[i].0), ("owner_key"@, entries[i].1)],
                ),
            ) is None,
        },
        forall|party: Seq<char>, owner: Seq<char>| #[trigger]
            entries.contains((party, owner)) <==> (exists|i: int|
                0 <= i < keys@.len() && (#[trigger] keys@[i]).fingerprint@ == owner
                    && keys@[i].usage@.contains(1i32)) && exists|i: int|
                0 <= i < definitions@.len() && defines_owner(
                    #[trigger] definitions@[i],
                    text_values(asked@),
                    party,
                    owner,
                ),
{
    let mine = fingerprints(keys@.filter(signs_namespaces()));
    let entries = all_own_keys(definitions@, text_values(asked@), mine);
    assert(entries.map_values(|k: (Seq<char>, Seq<char>)| owner_key_fields(k)) =~= Seq::new(
        entries.len(),
        |i: int| seq![("party_id"@, entries[i].0), ("owner_key"@, entries[i].1)],
    ));
    assert forall|party: Seq<char>, owner: Seq<char>| #[trigger]
        entries.contains((party, owner)) <==> (exists|i: int|
            0 <= i < keys@.len() && (#[trigger] keys@[i]).fingerprint@ == owner
                && keys@[i].usage@.contains(1i32)) && exists|i: int|
            0 <= i < definitions@.len() && defines_owner(
                #[trigger] definitions@[i],
                text_values(asked@),
                party,
                owner,
            ) by {
        law_listing_names_own_keys_only(definitions@, text_values(asked@), mine, party, owner);
        law_namespace_keys_are_those_of_that_use(keys@, owner);
    }
    entries
}

/// The packages are written in their order, each with its id, its name and its
/// version.
pub proof fn law_packages_are_written_in_order(
    packages: Vec<PackageDescription>,
    json: Option<Vec<u8>>,
)
    requires
        call_ensures(list_local_packages, (&packages,), json),
    ensures
        ({
            let objects = Seq::new(
                packages@.len(),
                |i: int|
                    seq![
                        ("package_id"@, packages@[i].package_id@),
                        ("name"@, packages@[i].name@),
                        ("version"@, packages@[i].version@),
                    ],
            );
            match json {
                Some(bytes) => outside::json_of_objects(objects) == Some(bytes@),
                None => outside::json_of_objects(objects) is None,
            }
        }),
{
    let objects = Seq::new(
        packages@.len(),
        |i: int|
            seq![
                ("package_id"@, packages@[i].package_id@),
                ("name"@, packages@[i].name@),
                ("version"@, packages@[i].version@),
            ],
    );
    assert(packages@.map_values(|p: PackageDescription| package_fields(p)) =~= objects);
}

} // verus!
