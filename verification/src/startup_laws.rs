//! What holds between the command line and the configuration that it makes.

use vstd::prelude::*;
use vstd::string::*;

use crate::cli::Commands;
use crate::config::{CantonTlsConfig, KeycloakConfig, NodeConfig};
use crate::startup;
use crate::startup::{Notices, TlsOverrides};
use crate::text;
use crate::text_laws;

verus! {

/// A setting is what its option says, and stays as it is where that is not given.
pub open spec fn obeys<T>(given: Option<T>, before: T, after: T) -> bool {
    &&& given is Some ==> after == given->0
    &&& given is None ==> after == before
}

/// A setting that may be missing is what its option says, and stays as it is where
/// that is not given.
pub open spec fn obeys_if_any<T>(given: Option<T>, before: Option<T>, after: Option<T>) -> bool {
    &&& given is Some ==> after == given
    &&& given is None ==> after == before
}

/// Each option for the node's own address goes to its own setting.
pub proof fn law_node_options_go_where_they_belong(
    before: NodeConfig,
    command: Commands,
    after: NodeConfig,
)
    requires
        startup::connections_after(before, command, after),
    ensures
        after.root_dir == before.root_dir,
        obeys(command->listen_address, before.node.listen_address, after.node.listen_address),
        obeys(command->noise_port, before.node.port, after.node.port),
        obeys_if_any(
            command->public_address,
            before.node.public_address,
            after.node.public_address,
        ),
{
}

/// Each option for Canton goes to its own setting, those for the admin interface
/// to that one and those for the ledger interface to that one.
pub proof fn law_canton_options_go_where_they_belong(
    before: NodeConfig,
    command: Commands,
    after: NodeConfig,
)
    requires
        startup::connections_after(before, command, after),
    ensures
        obeys(
            command->canton_admin_host,
            before.canton.admin_api_host,
            after.canton.admin_api_host,
        ),
        obeys(
            command->canton_admin_port,
            before.canton.admin_api_port,
            after.canton.admin_api_port,
        ),
        obeys(
            command->canton_ledger_host,
            before.canton.ledger_api_host,
            after.canton.ledger_api_host,
        ),
        obeys(
            command->canton_ledger_port,
            before.canton.ledger_api_port,
            after.canton.ledger_api_port,
        ),
        obeys(command->canton_synchronizer, before.canton.synchronizer, after.canton.synchronizer),
        obeys(command->canton_network, before.canton.network, after.canton.network),
{
}

/// Each TLS option goes to its own setting of its own interface.
pub proof fn law_tls_options_go_where_they_belong(
    before: NodeConfig,
    command: Commands,
    after: NodeConfig,
)
    requires
        startup::connections_after(before, command, after),
    ensures
        ({
            let old_tls = before.canton.admin_api_tls;
            let new_tls = after.canton.admin_api_tls;
            &&& obeys(command->canton_admin_tls, old_tls.enabled, new_tls.enabled)
            &&& obeys_if_any(command->canton_admin_tls_ca_cert, old_tls.ca_cert, new_tls.ca_cert)
            &&& obeys_if_any(
                command->canton_admin_tls_client_cert,
                old_tls.client_cert,
                new_tls.client_cert,
            )
            &&& obeys_if_any(
                command->canton_admin_tls_client_key,
                old_tls.client_key,
                new_tls.client_key,
            )
            &&& obeys_if_any(command->canton_admin_tls_domain, old_tls.domain, new_tls.domain)
        }),
        ({
            let old_tls = before.canton.ledger_api_tls;
            let new_tls = after.canton.ledger_api_tls;
            &&& obeys(command->canton_ledger_tls, old_tls.enabled, new_tls.enabled)
            &&& obeys_if_any(command->canton_ledger_tls_ca_cert, old_tls.ca_cert, new_tls.ca_cert)
            &&& obeys_if_any(
                command->canton_ledger_tls_client_cert,
                old_tls.client_cert,
                new_tls.client_cert,
            )
            &&& obeys_if_any(
                command->canton_ledger_tls_client_key,
                old_tls.client_key,
                new_tls.client_key,
            )
            &&& obeys_if_any(command->canton_ledger_tls_domain, old_tls.domain, new_tls.domain)
        }),
{
}

/// Each option that is given for a connection replaces its own setting; what was
/// not given stays.
pub proof fn law_tls_overrides_go_field_by_field(before: CantonTlsConfig, given: TlsOverrides<'_>)
    ensures
        obeys(*given.enabled, before.enabled, startup::tls_after(before, given).enabled),
        obeys_if_any(*given.ca_cert, before.ca_cert, startup::tls_after(before, given).ca_cert),
        obeys_if_any(
            *given.client_cert,
            before.client_cert,
            startup::tls_after(before, given).client_cert,
        ),
        obeys_if_any(
            *given.client_key,
            before.client_key,
            startup::tls_after(before, given).client_key,
        ),
        obeys_if_any(*given.domain, before.domain, startup::tls_after(before, given).domain),
{
}

/// Each option for how long and how often things are tried goes to its own
/// setting.
pub proof fn law_pace_options_go_where_they_belong(
    before: NodeConfig,
    command: Commands,
    after: NodeConfig,
)
    requires
        startup::pace_after(before, command, after),
    ensures
        obeys(
            command->timeout_handshake,
            before.timeouts.handshake_timeout_secs,
            after.timeouts.handshake_timeout_secs,
        ),
        obeys(
            command->timeout_message,
            before.timeouts.message_timeout_secs,
            after.timeouts.message_timeout_secs,
        ),
        obeys(
            command->timeout_retry_attempts,
            before.timeouts.connection_retry_attempts,
            after.timeouts.connection_retry_attempts,
        ),
        obeys(
            command->timeout_retry_delay,
            before.timeouts.connection_retry_delay_secs,
            after.timeouts.connection_retry_delay_secs,
        ),
        obeys(
            command->noise_retry_timeout_sec,
            before.noise_retry.per_attempt_timeout_secs,
            after.noise_retry.per_attempt_timeout_secs,
        ),
        obeys(
            command->noise_retry_max_attempts,
            before.noise_retry.max_attempts,
            after.noise_retry.max_attempts,
        ),
        obeys(
            command->noise_retry_backoff_ms,
            before.noise_retry.backoff_ms,
            after.noise_retry.backoff_ms,
        ),
        obeys(
            command->reward_automation_interval_secs,
            before.reward_automation_interval_secs,
            after.reward_automation_interval_secs,
        ),
        obeys(command->reward_max_creates, before.reward_max_creates, after.reward_max_creates),
        obeys(
            command->reward_min_expiry_margin_secs,
            before.reward_min_expiry_margin_secs,
            after.reward_min_expiry_margin_secs,
        ),
{
}

/// A node is insecure exactly where the command line says so. Each option for the
/// unsafe token goes to its own setting then, and to none otherwise.
pub proof fn law_unsafe_token_options_go_where_they_belong(
    before: NodeConfig,
    command: Commands,
    after: NodeConfig,
)
    requires
        startup::trust_after(before, command, after),
    ensures
        after.insecure <==> command->insecure,
        command->insecure ==> obeys(
            command->canton_hmac_secret,
            before.insecure_auth.secret,
            after.insecure_auth.secret,
        ) && obeys(
            command->canton_hmac_audience,
            before.insecure_auth.audience,
            after.insecure_auth.audience,
        ) && obeys(
            command->canton_hmac_subject,
            before.insecure_auth.subject,
            after.insecure_auth.subject,
        ),
        !command->insecure ==> after.insecure_auth == before.insecure_auth,
{
}

/// The frontend's client at Auth0 is the one that is given with a domain and a
/// client id; with one of the two alone nothing changes.
pub proof fn law_auth0_needs_domain_and_client(
    before: NodeConfig,
    command: Commands,
    after: NodeConfig,
)
    requires
        startup::trust_after(before, command, after),
    ensures
        command->auth0_domain is Some && command->auth0_client_id is Some ==> (
        after.auth0 matches Some(a) && command->auth0_domain == Some(a.domain)
            && command->auth0_client_id == Some(a.client_id) && a.audience
            == command->auth0_audience),
        command->auth0_domain is None || command->auth0_client_id is None ==> after.auth0
            == before.auth0,
{
}

/// Each Keycloak option goes to its own setting of the node's own sign-in. The
/// address, the realm or the client makes one where there was none, and the
/// internal address alone does nothing; what only parties have is kept.
pub proof fn law_keycloak_options_go_where_they_belong(
    before: Option<KeycloakConfig>,
    url: Option<String>,
    realm: Option<String>,
    client_id: Option<String>,
    internal_url: Option<String>,
    after: Option<KeycloakConfig>,
)
    requires
        startup::keycloak_after(before, url, realm, client_id, internal_url, after),
    ensures
        url is None && realm is None && client_id is None ==> after == before,
        url is Some || realm is Some || client_id is Some ==> after is Some,
        after matches Some(a) ==> (url matches Some(u) ==> a.url@ == u@) && (
        realm matches Some(r) ==> a.realm@ == r@) && (client_id matches Some(c) ==> a.client_id@
            == c@),
        after matches Some(a) ==> before matches Some(b) ==> (url is None ==> a.url@ == b.url@)
            && (realm is None ==> a.realm@ == b.realm@) && (client_id is None ==> a.client_id@
            == b.client_id@) && a.client_secret == b.client_secret && a.username == b.username
            && a.password == b.password,
        after matches Some(a) ==> before is None ==> (url is None ==> a.url@.len() == 0) && (
        realm is None ==> a.realm@.len() == 0) && (client_id is None ==> a.client_id@.len() == 0)
            && a.client_secret is None && a.username is None && a.password is None,
        after matches Some(a) ==> (url is Some || realm is Some || client_id is Some) ==> (
        internal_url is Some ==> a.internal_url == internal_url) && (internal_url is None
            ==> a.internal_url == match before {
            Some(b) => b.internal_url,
            None => None,
        }),
{
}

/// The Keycloak options of the command line are those for the node's own sign-in,
/// each for its own.
pub proof fn law_keycloak_options_are_the_command_lines(
    before: NodeConfig,
    command: Commands,
    after: NodeConfig,
)
    requires
        startup::trust_after(before, command, after),
    ensures
        after.keycloak matches Some(a) ==> (command->keycloak_url matches Some(u) ==> a.url@ == u@)
            && (command->keycloak_realm matches Some(r) ==> a.realm@ == r@) && (
        command->keycloak_client_id matches Some(c) ==> a.client_id@ == c@),
        command->keycloak_url is Some || command->keycloak_realm is Some
            || command->keycloak_client_id is Some ==> after.keycloak is Some && (
        command->keycloak_internal_url is Some ==> after.keycloak->0.internal_url
            == command->keycloak_internal_url),
        command->keycloak_url is None && command->keycloak_realm is None
            && command->keycloak_client_id is None ==> after.keycloak == before.keycloak,
{
}

/// The operator is warned exactly where an internal Keycloak address is given that
/// nothing uses, and the store's key is the one that is given.
pub proof fn law_notices_are_of_the_command_line(command: Commands, notices: Notices)
    requires
        startup::notices_of(command, notices),
    ensures
        notices.internal_url_ignored <==> command->keycloak_internal_url is Some
            && command->keycloak_url is None && command->keycloak_realm is None
            && command->keycloak_client_id is None,
        notices.db_encryption_key == command->db_encryption_key,
{
}

/// Applying the same options again changes nothing more.
pub proof fn law_options_settle(
    before: NodeConfig,
    command: Commands,
    once: NodeConfig,
    twice: NodeConfig,
)
    requires
        startup::connections_after(before, command, once),
        startup::pace_after(before, command, once),
        startup::trust_after(before, command, once),
        startup::connections_after(once, command, twice),
        startup::pace_after(once, command, twice),
        startup::trust_after(once, command, twice),
    ensures
        twice.root_dir == once.root_dir,
        twice.node == once.node,
        twice.canton == once.canton,
        twice.timeouts == once.timeouts,
        twice.noise_retry == once.noise_retry,
        twice.insecure == once.insecure,
        twice.insecure_auth == once.insecure_auth,
        text::texts(twice.tenant_api_keys@) == text::texts(once.tenant_api_keys@),
{
}

/// An argument at that place names no directory: it does not start like one of the
/// two options, or it only starts like the long one, or what it needs is missing.
pub open spec fn names_no_dir(args: Seq<Seq<char>>, i: int) -> bool {
    let arg = args[i];
    let short = arg.len() >= 2 && arg[0] == '-' && arg[1] == 'd';
    let long = arg.len() >= 5 && arg[0] == '-' && arg[1] == '-' && arg[2] == 'd' && arg[3] == 'i'
        && arg[4] == 'r';
    ||| !short && !long
    ||| long && arg.len() > 5 && arg[5] != '='
    ||| short && arg.len() == 2 && i + 1 == args.len()
    ||| long && arg.len() == 5 && i + 1 == args.len()
}

/// Arguments that name no directory are passed over.
proof fn lemma_passed_over(args: Seq<Seq<char>>, from: nat, to: nat)
    requires
        from <= to <= args.len(),
        forall|i: int| from <= i < to ==> #[trigger] names_no_dir(args, i),
    ensures
        startup::dir_from(args, from) == startup::dir_from(args, to),
    decreases to - from,
{
    if from < to {
        let arg = args[from as int];
        reveal_strlit("-d");
        reveal_strlit("--dir");
        reveal_strlit("--dir=");
        assert(names_no_dir(args, from as int));
        if text::starts_with(arg, "--dir="@) {
            assert(arg.take(6)[0] == '-' && arg.take(6)[1] == '-' && arg.take(6)[2] == 'd'
                && arg.take(6)[3] == 'i' && arg.take(6)[4] == 'r' && arg.take(6)[5] == '=');
        }
        if text::starts_with(arg, "-d"@) {
            assert(arg.take(2)[0] == '-' && arg.take(2)[1] == 'd');
        }
        assert(startup::dir_at(args, from as int) is None);
        lemma_passed_over(args, from + 1, to);
    }
}

/// The directory is the one that the first argument names that names any: the
/// argument after `-d` or `--dir`, or what follows `--dir=` or `-d` in the same
/// argument.
pub proof fn law_first_named_directory_counts(
    args: Seq<Seq<char>>,
    i: int,
    dir: Seq<char>,
)
    requires
        0 <= i < args.len(),
        forall|j: int| 0 <= j < i ==> #[trigger] names_no_dir(args, j),
    ensures
        (args[i] == "-d"@ || args[i] == "--dir"@) && i + 1 < args.len() ==> startup::dir_from(
            args,
            0,
        ) == args[i + 1],
        args[i] == "--dir="@ + dir ==> startup::dir_from(args, 0) == dir,
        args[i] == "-d"@ + dir && dir.len() > 0 ==> startup::dir_from(args, 0) == dir,
{
    reveal_strlit("-d");
    reveal_strlit("--dir");
    reveal_strlit("--dir=");
    lemma_passed_over(args, 0, i as nat);
    if args[i] == "--dir="@ + dir {
        text_laws::law_what_starts_with_a_prefix(args[i], "--dir="@, dir);
        assert(args[i][4] == 'r');
        assert(args[i][5] == '=');
        assert(args[i] != "-d"@ && args[i] != "--dir"@);
    }
    if args[i] == "-d"@ + dir && dir.len() > 0 {
        text_laws::law_what_starts_with_a_prefix(args[i], "-d"@, dir);
        assert(args[i][1] == 'd');
        if text::starts_with(args[i], "--dir="@) {
            assert(args[i].take(6)[1] == '-');
        }
        assert(args[i] != "-d"@ && args[i] != "--dir"@);
    }
}

/// Where no argument names a directory it is the current one.
pub proof fn law_current_directory_otherwise(args: Seq<Seq<char>>)
    requires
        forall|i: int| 0 <= i < args.len() ==> #[trigger] names_no_dir(args, i),
    ensures
        startup::dir_from(args, 0) == "."@,
{
    lemma_passed_over(args, 0, args.len());
}

/// The log is written as JSON unless, but for white space around them, the format
/// is the four letters of the word text, each of them large or small.
pub proof fn law_text_logs_are_asked_for_by_name(
    front: Seq<char>,
    t: Seq<char>,
    back: Seq<char>,
)
    requires
        forall|i: int| 0 <= i < front.len() ==> text::is_white_space(#[trigger] front[i]),
        forall|i: int| 0 <= i < back.len() ==> text::is_white_space(#[trigger] back[i]),
        t.len() == 0 || !text::is_white_space(t[0]) && !text::is_white_space(t.last()),
    ensures
        startup::wants_json(None),
        !startup::wants_json(Some(front + t + back)) <==> t.len() == 4 && (t[0] == 't' || t[0]
            == 'T') && (t[1] == 'e' || t[1] == 'E') && (t[2] == 'x' || t[2] == 'X') && (t[3] == 't'
            || t[3] == 'T'),
{
    reveal_strlit("text");
    text_laws::law_trimming_leaves_what_is_between(front, t, back);
    let l = text::lowered(t);
    if t.len() == 4 {
        assert(l[0] == text::ascii_lower(t[0]));
        assert(l[1] == text::ascii_lower(t[1]));
        assert(l[2] == text::ascii_lower(t[2]));
        assert(l[3] == text::ascii_lower(t[3]));
        if l == "text"@ {
            assert(l[0] == 't' && l[1] == 'e' && l[2] == 'x' && l[3] == 't');
        }
        if l[0] == 't' && l[1] == 'e' && l[2] == 'x' && l[3] == 't' {
            assert(l =~= "text"@);
        }
    } else {
        assert(l.len() != "text"@.len());
    }
}

/// The keys among two lists of pieces are those of the one and then those of the
/// other.
proof fn lemma_keys_among_both(first: Seq<Seq<char>>, second: Seq<Seq<char>>)
    ensures
        startup::keys_among(first + second) == startup::keys_among(first) + startup::keys_among(
            second,
        ),
    decreases second.len(),
{
    if second.len() == 0 {
        assert(first + second =~= first);
        assert(startup::keys_among(first) + startup::keys_among(second) =~= startup::keys_among(
            first,
        ));
    } else {
        assert((first + second).drop_last() =~= first + second.drop_last());
        assert((first + second).last() == second.last());
        lemma_keys_among_both(first, second.drop_last());
        assert(startup::keys_among(first + second) =~= startup::keys_among(first)
            + startup::keys_among(second));
    }
}

/// A comma stands between keys: two lists with a comma between them give the keys
/// of the one and then those of the other. No list gives none.
pub proof fn law_commas_stand_between_keys(first: String, second: String, list: String)
    requires
        list@ == first@ + ","@ + second@,
    ensures
        startup::keys_in(Some(list)) == startup::keys_in(Some(first)) + startup::keys_in(
            Some(second),
        ),
        startup::keys_in(None).len() == 0,
{
    reveal_strlit(",");
    assert(list@ =~= first@ + seq![','] + second@);
    text_laws::law_splitting_goes_text_by_text(first@, second@, ',');
    lemma_keys_among_both(text::pieces(first@, ','), text::pieces(second@, ','));
}

/// A text without commas has no pieces but itself.
proof fn lemma_one_piece(s: Seq<char>)
    requires
        !s.contains(','),
    ensures
        text::pieces(s, ',') == seq![s],
    decreases s.len(),
{
    if s.len() > 0 {
        let front = s.drop_last();
        assert(!front.contains(',')) by {
            if front.contains(',') {
                let k = choose|k: int| 0 <= k < front.len() && front[k] == ',';
                assert(s[k] == ',');
            }
        }
        lemma_one_piece(front);
        assert(s[s.len() - 1] != ',');
        assert(front.push(s.last()) =~= s);
        assert(text::pieces(s, ',') =~= seq![s]);
    } else {
        assert(s =~= Seq::<char>::empty());
        assert(text::pieces(s, ',') =~= seq![s]);
    }
}

/// Without commas a list gives one key, without the white space around it, or none
/// where it is white space only.
pub proof fn law_one_key_without_its_white_space(
    front: Seq<char>,
    key: Seq<char>,
    back: Seq<char>,
    list: String,
)
    requires
        list@ == front + key + back,
        !list@.contains(','),
        forall|i: int| 0 <= i < front.len() ==> text::is_white_space(#[trigger] front[i]),
        forall|i: int| 0 <= i < back.len() ==> text::is_white_space(#[trigger] back[i]),
        key.len() == 0 || !text::is_white_space(key[0]) && !text::is_white_space(key.last()),
    ensures
        key.len() > 0 ==> startup::keys_in(Some(list)) == seq![key],
        key.len() == 0 ==> startup::keys_in(Some(list)).len() == 0,
{
    lemma_one_piece(list@);
    text_laws::law_trimming_leaves_what_is_between(front, key, back);
    let one = seq![list@];
    assert(one.drop_last() =~= Seq::empty());
    reveal_with_fuel(startup::keys_among, 2);
    if key.len() > 0 {
        assert(startup::keys_in(Some(list)) =~= seq![key]);
    }
}

/// The tenants' keys that a node accepts are those of its command line and no
/// others, whatever it accepted before.
pub proof fn law_tenant_keys_are_the_command_lines(
    first: NodeConfig,
    second: NodeConfig,
    command: Commands,
    first_after: NodeConfig,
    second_after: NodeConfig,
)
    requires
        startup::trust_after(first, command, first_after),
        startup::trust_after(second, command, second_after),
    ensures
        text::texts(first_after.tenant_api_keys@) == text::texts(second_after.tenant_api_keys@),
        text::texts(first_after.tenant_api_keys@) == startup::keys_in(command->tenant_api_keys),
        command->tenant_api_keys is None ==> first_after.tenant_api_keys@.len() == 0,
{
    assert(text::texts(first_after.tenant_api_keys@).len() == first_after.tenant_api_keys@.len());
}

/// The database is the one that is given, or the file of its own name in the data
/// directory below the root, with one slash between them.
pub proof fn law_database_is_given_or_below_the_root(
    given: Option<String>,
    root_dir: &str,
    path: String,
    parent: Seq<char>,
)
    requires
        call_ensures(startup::database_path, (&given, root_dir), path),
    ensures
        given matches Some(db) ==> path@ == db@,
        given is None && root_dir@ == parent.push('/') ==> path@ == parent + "/data/decpm.db"@,
        given is None && root_dir@.len() > 0 && root_dir@.last() != '/' ==> path@ == root_dir@
            + "/data/decpm.db"@,
        given is None && root_dir@.len() == 0 ==> path@ == "data/decpm.db"@,
{
    reveal_strlit("/data/decpm.db");
    reveal_strlit("data/decpm.db");
    if given is None && root_dir@ == parent.push('/') {
        assert(path@ =~= parent + "/data/decpm.db"@);
    }
    if given is None && root_dir@.len() == 0 {
        assert(path@ =~= "data/decpm.db"@);
    }
}

/// The directory, the log's format and the tenants' keys are found in what the
/// operator gave.
pub proof fn law_findings_are_of_what_was_given(
    args: Vec<String>,
    dir: String,
    format: Option<&str>,
    json: bool,
    list: Option<String>,
    keys: Vec<String>,
)
    requires
        call_ensures(startup::find_dir_arg, (&args,), dir),
        call_ensures(startup::json_logs_enabled, (format,), json),
        call_ensures(startup::tenant_keys, (&list,), keys),
    ensures
        dir@ == startup::dir_from(text::texts(args@), 0),
        args@.len() == 0 ==> dir@ == "."@,
        format is None ==> json,
        format matches Some(f) ==> json == startup::wants_json(Some(f@)),
        text::texts(keys@) == startup::keys_in(list),
        list is None ==> keys@.len() == 0,
{
    assert(text::texts(args@).len() == args@.len());
    assert(text::texts(keys@).len() == keys@.len());
}

} // verus!
