//! Limits and renderings of read-view results.

use crate::browser::read_loop::CurrentFact;
use crate::entity::{
    entity_parse, entity_text, parse_entity_id, render_entity_id,
};
use crate::json::{
    json_text, new_object, no_fields, object_text, put_null, put_number, put_rows, put_texts,
    put_truth, render_value, rows_of, texts_of, value_text, JsonField,
};
use crate::text::{
    byte_len, decimal, has_char, push_decimal, starts_with_char, utf8_len,
};
use vstd::prelude::*;
use vstd::string::*;

verus! {

/// Bytes that one read-view result may take.
pub const BROWSER_READ_VIEW_MAX_RESULT_BYTES: usize = 8 * 1024 * 1024;

/// Bytes that one entity identifier takes in a result.
pub const ENTITY_TEXT_BYTES: usize = 36;

/// Why a read-view request or result was refused. Results are never truncated.
#[derive(Debug)]
pub enum ReadError {
    /// The byte limit is outside the allowed range.
    MaxBytesOutOfRange { max_bytes: usize },
    /// The result has too many rows.
    TooManyRows { rows: usize, max_rows: usize },
    /// The rendered result is too long.
    TooManyBytes { bytes: usize, max_bytes: usize },
    /// An entity identifier is malformed.
    InvalidEntityId { id: String, reason: String },
    /// A reference target is malformed.
    InvalidTargetId { value: String, reason: String },
    /// An attribute lacks its namespace.
    UnqualifiedAttribute { attribute: String },
    /// The reference limit is outside the allowed range.
    RefsLimitOutOfRange { limit: usize, max_rows: usize },
    /// The entity result is too long.
    EntitiesTooLarge,
    /// The reference result is too long.
    RefsTooLarge,
}

impl ReadError {
    /// The text reported for this error.
    pub open spec fn text(self) -> Seq<char> {
        match self {
            ReadError::MaxBytesOutOfRange { max_bytes } => "read-view max_bytes must be in 1..="@
                + decimal(BROWSER_READ_VIEW_MAX_RESULT_BYTES as nat) + "; got "@ + decimal(
                max_bytes as nat,
            ),
            ReadError::TooManyRows { rows, max_rows } => "read-view result has "@ + decimal(
                rows as nat,
            ) + " rows, exceeding max_rows "@ + decimal(max_rows as nat)
                + "; result was rejected without truncation"@,
            ReadError::TooManyBytes { bytes, max_bytes } => "read-view result has "@ + decimal(
                bytes as nat,
            ) + " bytes, exceeding max_bytes "@ + decimal(max_bytes as nat)
                + "; result was rejected without truncation"@,
            ReadError::InvalidEntityId { id, reason } => "current_entities invalid entity id "@
                + id@ + ": "@ + reason@,
            ReadError::InvalidTargetId { value, reason } => "current_refs invalid target id "@
                + value@ + ": "@ + reason@,
            ReadError::UnqualifiedAttribute { attribute } =>
                "current_refs attribute must be namespace-qualified: "@ + attribute@,
            ReadError::RefsLimitOutOfRange { limit, max_rows } =>
                "current_refs limit must be in 1..="@ + decimal(max_rows as nat) + "; got "@
                + decimal(limit as nat),
            ReadError::EntitiesTooLarge => "current_entities result exceeds "@ + decimal(
                BROWSER_READ_VIEW_MAX_RESULT_BYTES as nat,
            ) + " bytes; result was rejected without truncation"@,
            ReadError::RefsTooLarge => "current_refs result exceeds "@ + decimal(
                BROWSER_READ_VIEW_MAX_RESULT_BYTES as nat,
            ) + " bytes; result was rejected without truncation"@,
        }
    }

    /// Render this error for a caller.
    pub fn message(&self) -> (text: String)
        ensures
            text@ == self.text(),
    {
        let mut out = String::new();
        match self {
            ReadError::MaxBytesOutOfRange { max_bytes } => {
                out.append("read-view max_bytes must be in 1..=");
                push_decimal(&mut out, BROWSER_READ_VIEW_MAX_RESULT_BYTES as u64);
                out.append("; got ");
                push_decimal(&mut out, *max_bytes as u64);
            },
            ReadError::TooManyRows { rows, max_rows } => {
                out.append("read-view result has ");
                push_decimal(&mut out, *rows as u64);
                out.append(" rows, exceeding max_rows ");
                push_decimal(&mut out, *max_rows as u64);
                out.append("; result was rejected without truncation");
            },
            ReadError::TooManyBytes { bytes, max_bytes } => {
                out.append("read-view result has ");
                push_decimal(&mut out, *bytes as u64);
                out.append(" bytes, exceeding max_bytes ");
                push_decimal(&mut out, *max_bytes as u64);
                out.append("; result was rejected without truncation");
            },
            ReadError::InvalidEntityId { id, reason } => {
                out.append("current_entities invalid entity id ");
                out.append(id.as_str());
                out.append(": ");
                out.append(reason.as_str());
            },
            ReadError::InvalidTargetId { value, reason } => {
                out.append("current_refs invalid target id ");
                out.append(value.as_str());
                out.append(": ");
                out.append(reason.as_str());
            },
            ReadError::UnqualifiedAttribute { attribute } => {
                out.append("current_refs attribute must be namespace-qualified: ");
                out.append(attribute.as_str());
            },
            ReadError::RefsLimitOutOfRange { limit, max_rows } => {
                out.append("current_refs limit must be in 1..=");
                push_decimal(&mut out, *max_rows as u64);
                out.append("; got ");
                push_decimal(&mut out, *limit as u64);
            },
            ReadError::EntitiesTooLarge => {
                out.append("current_entities result exceeds ");
                push_decimal(&mut out, BROWSER_READ_VIEW_MAX_RESULT_BYTES as u64);
                out.append(" bytes; result was rejected without truncation");
            },
            ReadError::RefsTooLarge => {
                out.append("current_refs result exceeds ");
                push_decimal(&mut out, BROWSER_READ_VIEW_MAX_RESULT_BYTES as u64);
                out.append(" bytes; result was rejected without truncation");
            },
        }
        assert(out@ =~= self.text());
        out
    }
}

/// Accept the byte limit of a query.
pub fn check_query_limit(max_bytes: usize) -> (result: Result<(), ReadError>)
    ensures
        match result {
            Ok(_) => 0 < max_bytes <= BROWSER_READ_VIEW_MAX_RESULT_BYTES,
            Err(fault) => !(0 < max_bytes <= BROWSER_READ_VIEW_MAX_RESULT_BYTES) && fault == (
            ReadError::MaxBytesOutOfRange { max_bytes }),
        },
{
    if max_bytes == 0 || max_bytes > BROWSER_READ_VIEW_MAX_RESULT_BYTES {
        return Err(ReadError::MaxBytesOutOfRange { max_bytes });
    }
    Ok(())
}

/// What a command gave back.
#[derive(Debug)]
pub enum QueryResult {
    /// A transaction was recorded.
    Transacted(u64),
    /// A retraction was recorded.
    Retracted(u64),
    /// Facts were forgotten.
    Forgotten { tx_id: Option<u64>, count: usize },
    /// A rule was taken up.
    Accepted,
    /// A query found these rows of ready cells.
    QueryResults { vars: Vec<String>, results: Vec<Vec<serde_json::Value>> },
}

/// The fields of a rendered result.
pub open spec fn query_fields(result: QueryResult) -> Map<Seq<char>, JsonField> {
    match result {
        QueryResult::Transacted(tx_id) => no_fields().insert(
            "transacted"@,
            JsonField::Number(tx_id as int),
        ),
        QueryResult::Retracted(tx_id) => no_fields().insert(
            "retracted"@,
            JsonField::Number(tx_id as int),
        ),
        QueryResult::Forgotten { tx_id, count } => no_fields().insert(
            "forgotten"@,
            JsonField::Number(count as int),
        ).insert(
            "tx_id"@,
            match tx_id {
                Some(tx_id) => JsonField::Number(tx_id as int),
                None => JsonField::Null,
            },
        ),
        QueryResult::Accepted => no_fields().insert("ok"@, JsonField::Truth(true)),
        QueryResult::QueryResults { vars, results } => no_fields().insert(
            "variables"@,
            JsonField::List(texts_of(vars@)),
        ).insert("results"@, JsonField::List(rows_of(results@))),
    }
}

/// Render a result.
pub fn query_result_to_json(result: QueryResult) -> (text: String)
    ensures
        text@ == json_text(query_fields(result)),
{
    let mut object = new_object();
    match result {
        QueryResult::Transacted(tx_id) => put_number(&mut object, "transacted", tx_id),
        QueryResult::Retracted(tx_id) => put_number(&mut object, "retracted", tx_id),
        QueryResult::Forgotten { tx_id, count } => {
            put_number(&mut object, "forgotten", count as u64);
            match tx_id {
                Some(tx_id) => put_number(&mut object, "tx_id", tx_id),
                None => put_null(&mut object, "tx_id"),
            }
        },
        QueryResult::Accepted => put_truth(&mut object, "ok", true),
        QueryResult::QueryResults { vars, results } => {
            put_texts(&mut object, "variables", vars);
            put_rows(&mut object, "results", results);
        },
    }
    object_text(object)
}

/// The number of rows that count against a row limit.
pub open spec fn row_count(result: QueryResult) -> nat {
    match result {
        QueryResult::QueryResults { results, .. } => results@.len(),
        _ => 0,
    }
}

/// Render a read-view result that keeps both of its limits.
pub fn finish_query(result: QueryResult, max_rows: usize, max_bytes: usize) -> (rendered: Result<
    String,
    ReadError,
>)
    ensures
        ({
            let text = json_text(query_fields(result));
            match rendered {
                Ok(rendered) => {
                    &&& row_count(result) <= max_rows
                    &&& utf8_len(text) <= max_bytes
                    &&& rendered@ == text
                },
                Err(ReadError::TooManyRows { rows, max_rows: limit }) => {
                    &&& row_count(result) > max_rows
                    &&& rows == row_count(result)
                    &&& limit == max_rows
                },
                Err(ReadError::TooManyBytes { bytes, max_bytes: limit }) => {
                    &&& row_count(result) <= max_rows
                    &&& utf8_len(text) > max_bytes
                    &&& bytes == utf8_len(text)
                    &&& limit == max_bytes
                },
                Err(_) => false,
            }
        }),
{
    if let QueryResult::QueryResults { results, .. } = &result {
        if results.len() > max_rows {
            return Err(ReadError::TooManyRows { rows: results.len(), max_rows });
        }
    }
    let json = query_result_to_json(result);
    let bytes: usize = byte_len(json.as_str());
    if bytes > max_bytes {
        return Err(ReadError::TooManyBytes { bytes, max_bytes });
    }
    Ok(json)
}

/// Read every entity identifier of a request. The first malformed one is
/// reported.
pub fn parse_entity_ids(ids: &Vec<String>) -> (result: Result<Vec<u128>, ReadError>)
    ensures
        match result {
            Ok(parsed) => {
                &&& parsed@.len() == ids@.len()
                &&& forall|i: int|
                    0 <= i < ids@.len() ==> entity_parse(#[trigger] ids@[i]@) == Ok::<
                        u128,
                        Seq<char>,
                    >(parsed@[i])
            },
            Err(ReadError::InvalidEntityId { id, reason }) => exists|i: int|
                0 <= i < ids@.len() && entity_parse(#[trigger] ids@[i]@) == Err::<u128, Seq<char>>(
                    reason@,
                ) && id@ == ids@[i]@ && forall|j: int|
                    0 <= j < i ==> entity_parse(#[trigger] ids@[j]@) is Ok,
            Err(_) => false,
        },
{
    let mut parsed: Vec<u128> = Vec::new();
    let mut i: usize = 0;
    while i < ids.len()
        invariant
            i <= ids.len(),
            parsed@.len() == i,
            forall|j: int|
                0 <= j < i ==> entity_parse(#[trigger] ids@[j]@) == Ok::<u128, Seq<char>>(
                    parsed@[j],
                ),
        decreases ids.len() - i,
    {
        match parse_entity_id(ids[i].as_str()) {
            Ok(id) => parsed.push(id),
            Err(reason) => {
                assert(entity_parse(ids@[i as int]@) is Err);
                return Err(ReadError::InvalidEntityId { id: ids[i].clone(), reason });
            },
        }
        i += 1;
    }
    Ok(parsed)
}

/// Whether an attribute is namespace-qualified.
pub open spec fn qualified_attribute(attribute: Seq<char>) -> bool {
    &&& attribute.len() > 0
    &&& attribute[0] == ':'
    &&& attribute.contains('/')
    &&& !attribute.contains('\0')
}

/// A checked request for the entities that refer to one target.
#[derive(Clone, Copy, Debug, PartialEq, Eq, Structural)]
pub struct RefsRequest {
    /// The referenced entity.
    pub target: u128,
    /// The most sources that the result may have.
    pub limit: usize,
}

/// Check a request for the entities that refer to one target.
pub fn check_refs_request(attribute: &String, value: &String, limit: usize, max_rows: usize) -> (result:
    Result<RefsRequest, ReadError>)
    ensures
        match result {
            Ok(request) => {
                &&& qualified_attribute(attribute@)
                &&& 0 < limit <= max_rows
                &&& entity_parse(value@) == Ok::<u128, Seq<char>>(request.target)
                &&& request.limit == limit
            },
            Err(ReadError::UnqualifiedAttribute { attribute: reported }) => {
                &&& !qualified_attribute(attribute@)
                &&& reported@ == attribute@
            },
            Err(ReadError::RefsLimitOutOfRange { limit: reported, max_rows: allowed }) => {
                &&& qualified_attribute(attribute@)
                &&& !(0 < limit <= max_rows)
                &&& reported == limit
                &&& allowed == max_rows
            },
            Err(ReadError::InvalidTargetId { value: reported, reason }) => {
                &&& qualified_attribute(attribute@)
                &&& 0 < limit <= max_rows
                &&& entity_parse(value@) == Err::<u128, Seq<char>>(reason@)
                &&& reported@ == value@
            },
            Err(_) => false,
        },
{
    let text = attribute.as_str();
    if !starts_with_char(text, ':') || !has_char(text, '/') || has_char(text, '\0') {
        return Err(ReadError::UnqualifiedAttribute { attribute: attribute.clone() });
    }
    if limit == 0 || limit > max_rows {
        return Err(ReadError::RefsLimitOutOfRange { limit, max_rows });
    }
    match parse_entity_id(value.as_str()) {
        Ok(target) => Ok(RefsRequest { target, limit }),
        Err(reason) => Err(ReadError::InvalidTargetId { value: value.clone(), reason }),
    }
}

/// Render the sources of a reference read.
pub fn render_refs(sources: &Vec<u128>) -> (result: Result<Vec<String>, ReadError>)
    ensures
        match result {
            Ok(texts) => {
                &&& sources@.len() * ENTITY_TEXT_BYTES <= BROWSER_READ_VIEW_MAX_RESULT_BYTES
                &&& texts@.len() == sources@.len()
                &&& forall|i: int|
                    0 <= i < sources@.len() ==> (#[trigger] texts@[i])@ == entity_text(sources@[i])
                        && entity_parse(texts@[i]@) == Ok::<u128, Seq<char>>(sources@[i])
            },
            Err(fault) => {
                &&& sources@.len() * ENTITY_TEXT_BYTES > BROWSER_READ_VIEW_MAX_RESULT_BYTES
                &&& fault == ReadError::RefsTooLarge
            },
        },
{
    let too_large = match sources.len().checked_mul(ENTITY_TEXT_BYTES) {
        Some(bytes) => bytes > BROWSER_READ_VIEW_MAX_RESULT_BYTES,
        None => true,
    };
    if too_large {
        return Err(ReadError::RefsTooLarge);
    }
    let mut texts: Vec<String> = Vec::new();
    let mut i: usize = 0;
    while i < sources.len()
        invariant
            i <= sources.len(),
            texts@.len() == i,
            forall|j: int|
                0 <= j < i ==> (#[trigger] texts@[j])@ == entity_text(sources@[j]) && entity_parse(
                    texts@[j]@,
                ) == Ok::<u128, Seq<char>>(sources@[j]),
        decreases sources.len() - i,
    {
        texts.push(render_entity_id(sources[i]));
        i += 1;
    }
    Ok(texts)
}

/// One row of an entity result, ready to be handed out.
#[derive(Debug, PartialEq, Eq)]
pub struct EntityRow {
    /// The entity's text.
    pub entity: String,
    /// The attribute.
    pub attribute: String,
    /// The rendered value.
    pub value: String,
}

/// What a row of an entity result shows.
pub struct FactText {
    /// The entity.
    pub entity: u128,
    /// The attribute.
    pub attribute: Seq<char>,
    /// The rendered value.
    pub value: Seq<char>,
}

/// What facts with rendered values show.
pub open spec fn rendered_texts(facts: Seq<CurrentFact<String>>) -> Seq<FactText> {
    Seq::new(
        facts.len(),
        |i: int|
            FactText {
                entity: facts[i].entity,
                attribute: facts[i].attribute@,
                value: facts[i].value@,
            },
    )
}

/// What facts show once their values are rendered.
pub open spec fn fact_texts(facts: Seq<CurrentFact<serde_json::Value>>) -> Seq<FactText> {
    Seq::new(
        facts.len(),
        |i: int|
            FactText {
                entity: facts[i].entity,
                attribute: facts[i].attribute@,
                value: value_text(facts[i].value),
            },
    )
}

/// The bytes of the first `n` rows of an entity read. A row takes its entity's
/// text, its attribute and its rendered value.
pub open spec fn rows_bytes(facts: Seq<FactText>, n: nat) -> nat
    decreases n,
{
    if n == 0 {
        0
    } else {
        rows_bytes(facts, (n - 1) as nat) + ENTITY_TEXT_BYTES as nat + utf8_len(
            facts[n - 1].attribute,
        ) + utf8_len(facts[n - 1].value)
    }
}

proof fn lemma_rows_bytes_grow(facts: Seq<FactText>, n: nat, m: nat)
    requires
        n <= m,
    ensures
        rows_bytes(facts, n) <= rows_bytes(facts, m),
    decreases m - n,
{
    if n < m {
        lemma_rows_bytes_grow(facts, n, (m - 1) as nat);
    }
}

/// Whether a row shows a fact.
pub open spec fn shows_fact(row: EntityRow, fact: FactText) -> bool {
    &&& row.entity@ == entity_text(fact.entity)
    &&& row.attribute@ == fact.attribute
    &&& row.value@ == fact.value
}

/// The rows of an entity read, or why it is refused: a result that takes too
/// many bytes is refused as a whole.
pub open spec fn shown(result: Result<Vec<EntityRow>, ReadError>, facts: Seq<FactText>) -> bool {
    match result {
        Ok(rows) => {
            &&& rows_bytes(facts, facts.len()) <= BROWSER_READ_VIEW_MAX_RESULT_BYTES
            &&& rows@.len() == facts.len()
            &&& forall|i: int| 0 <= i < facts.len() ==> shows_fact(#[trigger] rows@[i], facts[i])
        },
        Err(fault) => rows_bytes(facts, facts.len()) > BROWSER_READ_VIEW_MAX_RESULT_BYTES && fault
            == ReadError::EntitiesTooLarge,
    }
}

/// Turn facts with rendered values into rows. A result that takes too many
/// bytes is refused as a whole.
pub fn rendered_facts_to_rows(facts: Vec<CurrentFact<String>>) -> (result: Result<
    Vec<EntityRow>,
    ReadError,
>)
    ensures
        shown(result, rendered_texts(facts@)),
{
    let ghost texts = rendered_texts(facts@);
    let mut rows: Vec<EntityRow> = Vec::new();
    let mut bytes: usize = 0;
    let mut i: usize = 0;
    while i < facts.len()
        invariant
            i <= facts.len(),
            texts == rendered_texts(facts@),
            bytes == rows_bytes(texts, i as nat),
            bytes <= BROWSER_READ_VIEW_MAX_RESULT_BYTES,
            rows@.len() == i,
            forall|j: int| 0 <= j < i ==> shows_fact(#[trigger] rows@[j], texts[j]),
        decreases facts.len() - i,
    {
        let fact = &facts[i];
        bytes = bytes.saturating_add(ENTITY_TEXT_BYTES).saturating_add(
            byte_len(fact.attribute.as_str()),
        ).saturating_add(byte_len(fact.value.as_str()));
        if bytes > BROWSER_READ_VIEW_MAX_RESULT_BYTES {
            proof {
                lemma_rows_bytes_grow(texts, (i + 1) as nat, texts.len());
            }
            return Err(ReadError::EntitiesTooLarge);
        }
        rows.push(
            EntityRow {
                entity: render_entity_id(fact.entity),
                attribute: fact.attribute.clone(),
                value: fact.value.clone(),
            },
        );
        i += 1;
    }
    Ok(rows)
}

/// Turn the facts of an entity read into rows. A result that takes too many
/// bytes is refused as a whole.
pub fn current_facts_to_rows(facts: Vec<CurrentFact<serde_json::Value>>) -> (result: Result<
    Vec<EntityRow>,
    ReadError,
>)
    ensures
        shown(result, fact_texts(facts@)),
{
    let mut rendered: Vec<CurrentFact<String>> = Vec::new();
    for fact in it: facts
        invariant
            it.seq() == facts@,
            rendered_texts(rendered@) == fact_texts(facts@.take(it.index())),
            it.index() == it.seq().len() ==> facts@.take(it.index()) == facts@,
    {
        let ghost was = rendered@;
        assert(fact == facts@[it.index()]);
        let value = render_value(&fact.value);
        rendered.push(CurrentFact { entity: fact.entity, attribute: fact.attribute, value });
        proof {
            let n = it.index();
            let shorter = fact_texts(facts@.take(n));
            let longer = fact_texts(facts@.take(n + 1));
            assert(rendered_texts(was).len() == shorter.len());
            assert forall|i: int| 0 <= i < n + 1 implies rendered_texts(rendered@)[i]
                == longer[i] by {
                if i < n {
                    assert(rendered_texts(was)[i] == shorter[i]);
                }
            }
            assert(rendered_texts(rendered@) =~= longer);
        }
    }
    rendered_facts_to_rows(rendered)
}

/// Only the rows of a query count against its row limit, and each of them does.
pub proof fn law_every_query_row_counts(result: QueryResult)
    ensures
        result matches QueryResult::QueryResults { results, .. } ==> row_count(result)
            == results@.len(),
        result !is QueryResults ==> row_count(result) == 0,
{
}

/// An attribute is qualified exactly when it is a colon, a namespace, a slash and
/// a name, and no NUL character is in either of them.
pub proof fn law_qualified_attribute_has_a_namespace(attribute: Seq<char>)
    ensures
        qualified_attribute(attribute) <==> exists|slash: int|
            1 <= slash < attribute.len() && attribute[0] == ':' && #[trigger] attribute[slash] == '/'
                && forall|i: int| 0 <= i < attribute.len() ==> #[trigger] attribute[i] != '\0',
{
    if qualified_attribute(attribute) {
        let slash = choose|slash: int|
            0 <= slash < attribute.len() && #[trigger] attribute[slash] == '/';
        assert(attribute[0] == ':');
        assert(1 <= slash < attribute.len() && attribute[slash] == '/');
    }
}

/// Facts take as many bytes as each of them does on its own: 36 for the entity,
/// and what its attribute and its value take.
pub proof fn law_rows_take_what_each_row_takes(facts: Seq<FactText>, fact: FactText)
    ensures
        rows_bytes(Seq::empty(), 0) == 0,
        rows_bytes(facts.push(fact), facts.len() + 1) == rows_bytes(facts, facts.len()) + 36
            + utf8_len(fact.attribute) + utf8_len(fact.value),
{
    lemma_rows_bytes_of_prefix(facts, fact, facts.len());
}

proof fn lemma_rows_bytes_of_prefix(facts: Seq<FactText>, fact: FactText, n: nat)
    requires
        n <= facts.len(),
    ensures
        rows_bytes(facts.push(fact), n) == rows_bytes(facts, n),
    decreases n,
{
    if n > 0 {
        lemma_rows_bytes_of_prefix(facts, fact, (n - 1) as nat);
    }
}

/// The rows of an entity read show every fact in its place: its entity, its
/// attribute and its rendered value. At most 8 MiB of them are handed out, and
/// nothing of a longer result is.
pub proof fn law_rows_show_every_fact(
    facts: Seq<CurrentFact<serde_json::Value>>,
    result: Result<Vec<EntityRow>, ReadError>,
)
    requires
        shown(result, fact_texts(facts)),
    ensures
        result matches Ok(rows) ==> {
            &&& rows@.len() == facts.len()
            &&& forall|i: int|
                0 <= i < facts.len() ==> {
                    &&& (#[trigger] rows@[i]).entity@ == entity_text(facts[i].entity)
                    &&& rows@[i].attribute@ == facts[i].attribute@
                    &&& rows@[i].value@ == value_text(facts[i].value)
                }
        },
        result is Ok <==> rows_bytes(fact_texts(facts), facts.len()) <= 8388608,
        result is Err ==> result->Err_0 is EntitiesTooLarge,
{
    if let Ok(rows) = result {
        assert forall|i: int| 0 <= i < facts.len() implies {
            &&& (#[trigger] rows@[i]).entity@ == entity_text(facts[i].entity)
            &&& rows@[i].attribute@ == facts[i].attribute@
            &&& rows@[i].value@ == value_text(facts[i].value)
        } by {
            assert(shows_fact(rows@[i], fact_texts(facts)[i]));
        }
    }
}

/// The same holds of facts whose values are rendered already.
pub proof fn law_rows_show_every_rendered_fact(
    facts: Seq<CurrentFact<String>>,
    result: Result<Vec<EntityRow>, ReadError>,
)
    requires
        shown(result, rendered_texts(facts)),
    ensures
        result matches Ok(rows) ==> {
            &&& rows@.len() == facts.len()
            &&& forall|i: int|
                0 <= i < facts.len() ==> {
                    &&& (#[trigger] rows@[i]).entity@ == entity_text(facts[i].entity)
                    &&& rows@[i].attribute@ == facts[i].attribute@
                    &&& rows@[i].value@ == facts[i].value@
                }
        },
        result is Ok <==> rows_bytes(rendered_texts(facts), facts.len()) <= 8388608,
{
    if let Ok(rows) = result {
        assert forall|i: int| 0 <= i < facts.len() implies {
            &&& (#[trigger] rows@[i]).entity@ == entity_text(facts[i].entity)
            &&& rows@[i].attribute@ == facts[i].attribute@
            &&& rows@[i].value@ == facts[i].value@
        } by {
            assert(shows_fact(rows@[i], rendered_texts(facts)[i]));
        }
    }
}

/// Facts with rendered values take what they take on their own, attribute and
/// value alike.
pub proof fn law_facts_take_what_they_show(
    facts: Seq<CurrentFact<serde_json::Value>>,
    rendered: Seq<CurrentFact<String>>,
)
    requires
        rendered.len() == facts.len(),
        forall|i: int|
            0 <= i < facts.len() ==> (#[trigger] rendered[i]).entity == facts[i].entity
                && rendered[i].attribute@ == facts[i].attribute@ && rendered[i].value@
                == value_text(facts[i].value),
    ensures
        fact_texts(facts) == rendered_texts(rendered),
        rendered_texts(rendered).len() == rendered.len(),
        forall|i: int|
            0 <= i < rendered.len() ==> (#[trigger] rendered_texts(rendered)[i]).entity
                == rendered[i].entity && rendered_texts(rendered)[i].attribute
                == rendered[i].attribute@ && rendered_texts(rendered)[i].value
                == rendered[i].value@,
{
    assert forall|i: int| 0 <= i < facts.len() implies fact_texts(facts)[i] == rendered_texts(
        rendered,
    )[i] by {
        assert(rendered[i].entity == facts[i].entity);
    }
    assert(fact_texts(facts) =~= rendered_texts(rendered));
}

} // verus!
