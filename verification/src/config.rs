//! How the service is set up.
use crate::text;
use crate::text::{split_on, trim};
use vstd::prelude::*;

verus! {

#[derive(Clone, Debug)]
pub struct Config {
    pub kafka_bootstrap_servers: String,
    pub kafka_group_id: String,
    pub kafka_topic: String,
    pub kafka_dlq_topic: String,
    pub cassandra_hosts: Vec<String>,
    pub cassandra_keyspace: String,
    pub cassandra_consistency_write: String,
    pub cassandra_consistency_read: String,
    pub schema_registry_url: String,
}

/// The variables of the environment that the service looks at.
pub struct Variables {
    pub kafka_bootstrap_servers: Option<String>,
    pub kafka_group_id: Option<String>,
    pub kafka_topic: Option<String>,
    pub kafka_dlq_topic: Option<String>,
    pub cassandra_hosts: Option<String>,
    pub cassandra_keyspace: Option<String>,
    pub cassandra_consistency_write: Option<String>,
    pub cassandra_consistency_read: Option<String>,
    pub schema_registry_url: Option<String>,
}

/// A variable's value, or the default.
pub open spec fn value_or(variable: Option<String>, default: Seq<char>) -> Seq<char> {
    match variable {
        Some(s) => s@,
        None => default,
    }
}

/// A variable's value, or the default.
pub fn or_default(variable: Option<String>, default: &str) -> (r: String)
    ensures
        r@ == value_or(variable, default@),
{
    match variable {
        Some(s) => s,
        None => default.to_string(),
    }
}

/// The names between the commas, without white space around them.
pub open spec fn host_names(list: Seq<char>) -> Seq<Seq<char>> {
    text::split_text(list, ',').map_values(|s: Seq<char>| text::trim_text(s))
}

/// Splits a list of hosts.
pub fn parse_hosts(list: &str) -> (r: Vec<String>)
    ensures
        text::texts(r@) == host_names(list@),
{
    let pieces = split_on(list, ',');
    let ghost all = text::split_text(list@, ',');
    let mut out: Vec<String> = Vec::new();
    let mut i: usize = 0;
    while i < pieces.len()
        invariant
            i <= pieces.len(),
            text::texts(pieces@) == all,
            out@.len() == i,
            forall|j: int| 0 <= j < i ==> (#[trigger] out@[j])@ == text::trim_text(all[j]),
        decreases pieces.len() - i,
    {
        assert(all[i as int] == pieces@[i as int]@);
        out.push(trim(pieces[i].as_str()));
        i += 1;
    }
    assert(text::texts(out@) =~= host_names(list@));
    out
}

impl Config {
    /// Sets the service up from the environment's variables: each has a default.
    pub fn from_vars(vars: Variables) -> (r: Config)
        ensures
            r.kafka_bootstrap_servers@ == value_or(
                vars.kafka_bootstrap_servers,
                "localhost:9092"@,
            ),
            r.kafka_group_id@ == value_or(vars.kafka_group_id, "warehouse-state-consumer"@),
            r.kafka_topic@ == value_or(vars.kafka_topic, "warehouse-events"@),
            r.kafka_dlq_topic@ == value_or(vars.kafka_dlq_topic, "warehouse-events-dlq"@),
            text::texts(r.cassandra_hosts@) == host_names(
                value_or(vars.cassandra_hosts, "localhost"@),
            ),
            r.cassandra_keyspace@ == value_or(vars.cassandra_keyspace, "warehouse"@),
            r.cassandra_consistency_write@ == value_or(
                vars.cassandra_consistency_write,
                "QUORUM"@,
            ),
            r.cassandra_consistency_read@ == value_or(vars.cassandra_consistency_read, "ONE"@),
            r.schema_registry_url@ == value_or(
                vars.schema_registry_url,
                "http://schema-registry:8081"@,
            ),
    {
        let hosts = or_default(vars.cassandra_hosts, "localhost");
        Config {
            kafka_bootstrap_servers: or_default(vars.kafka_bootstrap_servers, "localhost:9092"),
            kafka_group_id: or_default(vars.kafka_group_id, "warehouse-state-consumer"),
            kafka_topic: or_default(vars.kafka_topic, "warehouse-events"),
            kafka_dlq_topic: or_default(vars.kafka_dlq_topic, "warehouse-events-dlq"),
            cassandra_hosts: parse_hosts(hosts.as_str()),
            cassandra_keyspace: or_default(vars.cassandra_keyspace, "warehouse"),
            cassandra_consistency_write: or_default(vars.cassandra_consistency_write, "QUORUM"),
            cassandra_consistency_read: or_default(vars.cassandra_consistency_read, "ONE"),
            schema_registry_url: or_default(
                vars.schema_registry_url,
                "http://schema-registry:8081",
            ),
        }
    }
}

/// The group under which the lag is watched.
pub fn lag_monitor_group(group_id: &str) -> (r: String)
    ensures
        r@ == group_id@ + "-lag-monitor"@,
{
    text::join2(group_id, "-lag-monitor")
}

/// The statements of a migration, without white space around them and without those
/// that are empty: among the first `k` pieces between semicolons.
pub open spec fn statements_in(pieces: Seq<Seq<char>>, k: int) -> Seq<Seq<char>>
    decreases k,
{
    if k <= 0 {
        Seq::empty()
    } else {
        let trimmed = text::trim_text(pieces[k - 1]);
        if trimmed.len() == 0 {
            statements_in(pieces, k - 1)
        } else {
            statements_in(pieces, k - 1).push(trimmed)
        }
    }
}

/// The statements of a migration.
pub open spec fn statements_of(cql: Seq<char>) -> Seq<Seq<char>> {
    let pieces = text::split_text(cql, ';');
    statements_in(pieces, pieces.len() as int)
}

/// Splits a migration into its statements.
pub fn migration_statements(cql: &str) -> (r: Vec<String>)
    ensures
        text::texts(r@) == statements_of(cql@),
{
    let pieces = split_on(cql, ';');
    let ghost all = text::split_text(cql@, ';');
    let mut out: Vec<String> = Vec::new();
    let mut i: usize = 0;
    assert(text::texts(out@) =~= statements_in(all, 0));
    while i < pieces.len()
        invariant
            i <= pieces.len(),
            text::texts(pieces@) == all,
            text::texts(out@) == statements_in(all, i as int),
        decreases pieces.len() - i,
    {
        assert(all[i as int] == pieces@[i as int]@);
        let trimmed = trim(pieces[i].as_str());
        let ghost before = out@;
        if trimmed.as_str().unicode_len() > 0 {
            out.push(trimmed);
            assert(text::texts(out@) =~= text::texts(before).push(out@.last()@));
        }
        i += 1;
    }
    assert(all.len() == pieces.len());
    out
}

/// Whether a text is all white space.
pub open spec fn is_blank(s: Seq<char>) -> bool {
    forall|i: int| 0 <= i < s.len() ==> text::white_space(#[trigger] s[i])
}

/// How many of the pieces before the `k`th are not all white space.
pub open spec fn kept_pieces(pieces: Seq<Seq<char>>, k: int) -> int
    decreases k,
{
    if k <= 0 {
        0
    } else {
        kept_pieces(pieces, k - 1) + if is_blank(pieces[k - 1]) {
            0int
        } else {
            1
        }
    }
}

proof fn trimmed_to_nothing(s: Seq<char>)
    ensures
        text::trim_text(s).len() == 0 <==> is_blank(s),
{
    text::trimming_takes_white_space(s);
    let (from, to) = choose|from: int, to: int|
        {
            &&& 0 <= from <= to <= s.len()
            &&& text::trim_text(s) == #[trigger] s.subrange(from, to)
            &&& forall|i: int|
                0 <= i < from || to <= i < s.len() ==> text::white_space(#[trigger] s[i])
        };
    if text::trim_text(s).len() > 0 {
        assert(text::trim_text(s)[0] == s[from]);
    }
}

/// A migration has a statement for each piece between semicolons that is not all white space,
/// in order: the `k`th piece, if it is one, without the white space around it, comes after
/// the statements of those before it.
pub proof fn migration_has_its_statements(pieces: Seq<Seq<char>>, n: int, k: int)
    requires
        0 <= k < n <= pieces.len(),
    ensures
        statements_in(pieces, n).len() == kept_pieces(pieces, n),
        kept_pieces(pieces, k) < kept_pieces(pieces, k + 1) ==> statements_in(
            pieces,
            n,
        )[kept_pieces(pieces, k)] == text::trim_text(pieces[k]),
        0 <= kept_pieces(pieces, k) <= kept_pieces(pieces, k + 1) <= kept_pieces(pieces, n),
    decreases n,
{
    trimmed_to_nothing(pieces[n - 1]);
    assert(statements_in(pieces, 0).len() == 0);
    if k < n - 1 {
        migration_has_its_statements(pieces, n - 1, k);
    } else if n > 1 {
        migration_has_its_statements(pieces, n - 1, 0);
    }
}

/// There is one host for each piece between commas, without white space around it.
pub proof fn hosts_are_the_pieces(list: Seq<char>, i: int)
    requires
        0 <= i < text::split_text(list, ',').len(),
    ensures
        host_names(list).len() == text::split_text(list, ',').len(),
        host_names(list)[i] == text::trim_text(text::split_text(list, ',')[i]),
{
}

/// A variable that is set counts, whatever it holds, and the default only where it is not.
pub proof fn variable_counts_where_set(value: String, default: Seq<char>)
    ensures
        value_or(Some(value), default) == value@,
        value_or(None, default) == default,
{
}

} // verus!
