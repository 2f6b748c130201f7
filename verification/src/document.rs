//! Reading a whole requirement document.
//!
//! Three shapes are read alike: a document with a member
//! `programRequirements`, a requirements record on its own, and a bare array
//! of components.
use crate::ingest::{
    is_payload_of, payload_ok, payload_skips, read_payload, SkipKind, SkipRecord,
};
use crate::json::{
    bool_field, field, int_field, items_field, lemma_models, model, models, opt_text,
    text_field, JsonModel, JsonValue,
};
use crate::rule::texts;
use crate::tree::{ApplicablePeriod, Component, ProgramRequirements};
use vstd::prelude::*;

verus! {

/// What identifies a document: the kind of program, its code and the year.
#[derive(Debug, Clone, PartialEq, Eq)]
pub struct Params {
    pub kind: String,
    pub code: String,
    pub year: String,
}

/// Whether a program is open to domestic students.
#[derive(Debug, Clone, Copy, PartialEq, Eq, Structural)]
pub struct Domestic {
    pub suspension: bool,
    pub available: bool,
}

/// Whether a program is open to international students.
#[derive(Debug, Clone, Copy, PartialEq, Eq, Structural)]
pub struct International {
    pub suspension: bool,
    pub available: bool,
}

/// Whether and to whom a program is offered.
#[derive(Debug, Clone, Copy, PartialEq, Eq, Structural)]
pub struct Status {
    pub no_longer_offered: bool,
    pub domestic: Domestic,
    pub international: Option<International>,
}

/// What a document says of the program besides its requirements.
#[derive(Debug, Clone, PartialEq, Eq)]
pub struct DegreeInfo {
    pub title: Option<String>,
    pub params: Option<Params>,
    pub status: Option<Status>,
    pub year_options: Vec<String>,
}

/// What reading a document gave: what it says of the program, the
/// requirements as far as they could be read, and a record of what was left
/// out or filled in.
#[derive(Debug, PartialEq, Eq)]
pub struct IngestReport {
    pub info: DegreeInfo,
    pub requirements: ProgramRequirements,
    pub skipped: Vec<SkipRecord>,
}

/// The two flags of an availability record, where it has both.
pub open spec fn availability(v: Option<JsonModel>) -> Option<(bool, bool)> {
    match v {
        Some(x) => if bool_field(x, "suspension"@) is Some && bool_field(x, "available"@) is Some {
            Some((bool_field(x, "suspension"@)->Some_0, bool_field(x, "available"@)->Some_0))
        } else {
            None
        },
        None => None,
    }
}

/// Whether `p` is what the record `v` says identifies the document; a record
/// that lacks type, code or year says nothing.
pub open spec fn is_params_of(p: Option<Params>, v: Option<JsonModel>) -> bool {
    match v {
        Some(x) => if text_field(x, "type"@) is Some && text_field(x, "code"@) is Some
            && text_field(x, "year"@) is Some {
            p matches Some(params) && Some(params.kind@) == text_field(x, "type"@) && Some(
                params.code@,
            ) == text_field(x, "code"@) && Some(params.year@) == text_field(x, "year"@)
        } else {
            p is None
        },
        None => p is None,
    }
}

/// The status that the record `v` gives; a record that does not say whether
/// the program is still offered, or to domestic students, gives none.
pub open spec fn status_of(v: Option<JsonModel>) -> Option<Status> {
    match v {
        Some(x) => if bool_field(x, "noLongerOffered"@) is Some && availability(
            field(x, "domestic"@),
        ) is Some {
            Some(
                Status {
                    no_longer_offered: bool_field(x, "noLongerOffered"@)->Some_0,
                    domestic: Domestic {
                        suspension: availability(field(x, "domestic"@))->Some_0.0,
                        available: availability(field(x, "domestic"@))->Some_0.1,
                    },
                    international: match availability(field(x, "international"@)) {
                        Some(flags) => Some(
                            International { suspension: flags.0, available: flags.1 },
                        ),
                        None => None,
                    },
                },
            )
        } else {
            None
        },
        None => None,
    }
}

/// The years that the document offers: the entries of its member
/// `yearOptions` where that is an array of strings, else none.
pub open spec fn year_options_of(v: JsonModel) -> Seq<Seq<char>> {
    match items_field(v, "yearOptions"@) {
        Some(items) => if forall|i: int| 0 <= i < items.len() ==> (#[trigger] items[i]) is Str {
            Seq::new(items.len(), |i: int| items[i]->Str_0)
        } else {
            Seq::empty()
        },
        None => Seq::empty(),
    }
}

/// Whether `d` is what the document `v` says of the program.
pub open spec fn is_info_of(d: DegreeInfo, v: JsonModel) -> bool {
    &&& opt_text(d.title) == text_field(v, "title"@)
    &&& is_params_of(d.params, field(v, "params"@))
    &&& d.status == status_of(field(v, "status"@))
    &&& texts(d.year_options@) == year_options_of(v)
}

/// Whether the record `v` can be read as a component: it has its identifier,
/// its integration identifier, its name and its type, and a payload that can
/// be read.
pub open spec fn component_ok(v: JsonModel) -> bool {
    &&& int_field(v, "internalComponentIdentifier"@) is Some
    &&& text_field(v, "componentIntegrationIdentifier"@) is Some
    &&& text_field(v, "name"@) is Some
    &&& text_field(v, "type"@) is Some
    &&& field(v, "payload"@) is Some
    &&& payload_ok(field(v, "payload"@)->Some_0)
}

/// Whether `c` is the component that the record `v` describes.
pub open spec fn is_component_of(c: Component, v: JsonModel) -> bool {
    &&& Some(c.internal_component_identifier) == int_field(v, "internalComponentIdentifier"@)
    &&& Some(c.component_integration_identifier@) == text_field(
        v,
        "componentIntegrationIdentifier"@,
    )
    &&& Some(c.name@) == text_field(v, "name"@)
    &&& Some(c.kind@) == text_field(v, "type"@)
    &&& is_payload_of(c.payload, field(v, "payload"@)->Some_0)
}

/// How many of the first `k` records can be read as components.
pub open spec fn kept_components(items: Seq<JsonModel>, k: int) -> nat
    decreases k,
{
    if k <= 0 {
        0
    } else {
        kept_components(items, k - 1) + if component_ok(items[k - 1]) {
            1nat
        } else {
            0nat
        }
    }
}

/// Whether `list` holds, in order, the components of those of `items` that
/// can be read.
pub open spec fn is_components_of(list: Seq<Component>, items: Seq<JsonModel>) -> bool {
    &&& list.len() == kept_components(items, items.len() as int)
    &&& forall|k: int|
        0 <= k < items.len() && component_ok(#[trigger] items[k]) ==> kept_components(items, k)
            < list.len() && is_component_of(list[kept_components(items, k) as int], items[k])
}

/// What reading the first `k` component records puts on record: for one that
/// cannot be read, one record with its position; for any other, what reading
/// its payload gave.
pub open spec fn components_skips(list: Seq<Component>, items: Seq<JsonModel>, k: int) -> Seq<
    SkipRecord,
>
    decreases k,
{
    if k <= 0 || k > items.len() {
        Seq::empty()
    } else {
        components_skips(list, items, k - 1) + if !component_ok(items[k - 1]) {
            seq![SkipRecord { kind: SkipKind::MalformedComponent, index: (k - 1) as usize }]
        } else if kept_components(items, k - 1) < list.len() {
            payload_skips(
                list[kept_components(items, k - 1) as int].payload,
                field(items[k - 1], "payload"@)->Some_0,
            )
        } else {
            Seq::empty()
        }
    }
}

/// The record that describes the requirements: the member
/// `programRequirements` where the document has one, else the document
/// itself.
pub open spec fn requirements_record(v: JsonModel) -> JsonModel {
    match field(v, "programRequirements"@) {
        Some(record) => record,
        None => v,
    }
}

/// The component records of a document: the document itself where it is an
/// array; else the member `components` of the member `payload` of the
/// requirements record; none where those are missing.
pub open spec fn component_items(v: JsonModel) -> Seq<JsonModel> {
    match v {
        JsonModel::Arr(items) => items,
        _ => match field(requirements_record(v), "payload"@) {
            Some(payload) => match items_field(payload, "components"@) {
                Some(items) => items,
                None => Seq::empty(),
            },
            None => Seq::empty(),
        },
    }
}

/// Whether `p` is the period that the record `v` describes; a record without
/// a first year and term describes none.
pub open spec fn is_period_of(p: Option<ApplicablePeriod>, v: Option<JsonModel>) -> bool {
    match v {
        Some(x) => if text_field(x, "fromYear"@) is Some && text_field(x, "fromTerm"@) is Some {
            p matches Some(period) && Some(period.from_year@) == text_field(x, "fromYear"@)
                && Some(period.from_term@) == text_field(x, "fromTerm"@) && opt_text(
                period.to_year,
            ) == text_field(x, "toYear"@) && opt_text(period.to_term) == text_field(x, "toTerm"@)
        } else {
            p is None
        },
        None => p is None,
    }
}

/// Whether `r` holds the requirements that the document `v` describes.
pub open spec fn is_requirements_of(r: ProgramRequirements, v: JsonModel) -> bool {
    let record = requirements_record(v);
    &&& opt_text(r.code) == text_field(record, "code"@)
    &&& opt_text(r.name) == text_field(record, "name"@)
    &&& opt_text(r.year_applied) == text_field(record, "yearApplied"@)
    &&& is_period_of(r.applicable_period, field(record, "applicablePeriod"@))
    &&& r.units_minimum == int_field(record, "unitsMinimum"@)
    &&& r.units_maximum == int_field(record, "unitsMaximum"@)
    &&& is_components_of(r.components@, component_items(v))
}

/// No more components are kept than records were looked at.
pub proof fn lemma_kept_components_bound(items: Seq<JsonModel>, k: int)
    requires
        0 <= k,
    ensures
        kept_components(items, k) <= k,
    decreases k,
{
    if k > 0 {
        lemma_kept_components_bound(items, k - 1);
    }
}

/// What the first `k` component records put on record depends only on the
/// components that were read from them.
pub proof fn lemma_components_skips_prefix(
    a: Seq<Component>,
    b: Seq<Component>,
    items: Seq<JsonModel>,
    k: int,
)
    requires
        0 <= k <= items.len(),
        kept_components(items, k) <= a.len(),
        kept_components(items, k) <= b.len(),
        forall|j: int| 0 <= j < kept_components(items, k) ==> a[j] == b[j],
    ensures
        components_skips(a, items, k) == components_skips(b, items, k),
    decreases k,
{
    if k > 0 {
        lemma_components_skips_prefix(a, b, items, k - 1);
    }
}

/// Reads a component record; nothing where it cannot be read. What reading
/// its payload leaves out is added to `log`; a record that cannot be read
/// adds nothing.
pub fn read_component(v: &JsonValue, log: &mut Vec<SkipRecord>) -> (r: Option<Component>)
    ensures
        match r {
            Some(c) => component_ok(v@) && is_component_of(c, v@) && final(log)@ == old(log)@
                + payload_skips(c.payload, field(v@, "payload"@)->Some_0),
            None => !component_ok(v@) && final(log)@ == old(log)@,
        },
{
    let internal_component_identifier = match v.get_int("internalComponentIdentifier") {
        Some(n) => n,
        None => {
            return None;
        },
    };
    let component_integration_identifier = match v.get_str("componentIntegrationIdentifier") {
        Some(s) => s,
        None => {
            return None;
        },
    };
    let name = match v.get_str("name") {
        Some(s) => s,
        None => {
            return None;
        },
    };
    let kind = match v.get_str("type") {
        Some(s) => s,
        None => {
            return None;
        },
    };
    let payload = match v.get("payload") {
        Some(x) => match read_payload(x, log) {
            Some(t) => t,
            None => {
                return None;
            },
        },
        None => {
            return None;
        },
    };
    Some(
        Component {
            internal_component_identifier,
            component_integration_identifier,
            name,
            kind,
            payload,
        },
    )
}

/// Reads component records in order. Those that cannot be read are left out,
/// each with a record in `log`.
pub fn read_components(items: &Vec<JsonValue>, log: &mut Vec<SkipRecord>) -> (r: Vec<Component>)
    ensures
        is_components_of(r@, models(items@, items@.len() as int)),
        final(log)@ == old(log)@ + components_skips(
            r@,
            models(items@, items@.len() as int),
            items@.len() as int,
        ),
{
    let ghost ms = models(items@, items@.len() as int);
    proof {
        lemma_models(items@, items@.len() as int);
    }
    let mut out: Vec<Component> = Vec::new();
    let mut i: usize = 0;
    proof {
        assert(log@ =~= old(log)@ + components_skips(out@, ms, 0));
    }
    while i < items.len()
        invariant
            i <= items.len(),
            ms == models(items@, items@.len() as int),
            ms.len() == items@.len(),
            forall|j: int| 0 <= j < items@.len() ==> #[trigger] ms[j] == model(items@[j]),
            out@.len() == kept_components(ms, i as int),
            forall|k: int|
                0 <= k < i && component_ok(#[trigger] ms[k]) ==> kept_components(ms, k)
                    < out@.len() && is_component_of(out@[kept_components(ms, k) as int], ms[k]),
            log@ == old(log)@ + components_skips(out@, ms, i as int),
        decreases items.len() - i,
    {
        let ghost before = out@;
        assert(ms[i as int] == items@[i as int]@);
        proof {
            lemma_kept_components_bound(ms, i as int);
        }
        match read_component(&items[i], log) {
            Some(c) => {
                out.push(c);
                proof {
                    lemma_components_skips_prefix(before, out@, ms, i as int);
                    assert forall|k: int|
                        0 <= k < i + 1 && component_ok(#[trigger] ms[k]) implies kept_components(
                        ms,
                        k,
                    ) < out@.len() && is_component_of(
                        out@[kept_components(ms, k) as int],
                        ms[k],
                    ) by {
                        if k < i {
                            assert(out@[kept_components(ms, k) as int] == before[kept_components(
                                ms,
                                k,
                            ) as int]);
                        }
                    }
                    assert(log@ =~= old(log)@ + components_skips(out@, ms, i + 1));
                }
            },
            None => {
                log.push(SkipRecord { kind: SkipKind::MalformedComponent, index: i });
                proof {
                    assert(log@ =~= old(log)@ + components_skips(out@, ms, i + 1));
                }
            },
        }
        i = i + 1;
    }
    out
}

/// Reads the period in which requirements apply.
pub fn read_period(v: Option<&JsonValue>) -> (r: Option<ApplicablePeriod>)
    ensures
        is_period_of(
            r,
            match v {
                Some(x) => Some(x@),
                None => None,
            },
        ),
{
    match v {
        Some(x) => match (x.get_str("fromYear"), x.get_str("fromTerm")) {
            (Some(from_year), Some(from_term)) => Some(
                ApplicablePeriod {
                    from_year,
                    from_term,
                    to_year: x.get_str("toYear"),
                    to_term: x.get_str("toTerm"),
                },
            ),
            _ => None,
        },
        None => None,
    }
}

/// Reads the components of a document, whatever its shape.
pub fn read_document_components(doc: &JsonValue, log: &mut Vec<SkipRecord>) -> (r: Vec<Component>)
    ensures
        is_components_of(r@, component_items(doc@)),
        final(log)@ == old(log)@ + components_skips(
            r@,
            component_items(doc@),
            component_items(doc@).len() as int,
        ),
{
    match doc.as_array() {
        Some(items) => {
            proof {
                lemma_models(items@, items@.len() as int);
            }
            return read_components(items, log);
        },
        None => {},
    }
    let record = match doc.get("programRequirements") {
        Some(x) => x,
        None => doc,
    };
    match record.get("payload") {
        Some(payload) => match payload.get_items("components") {
            Some(items) => {
                proof {
                    lemma_models(items@, items@.len() as int);
                }
                return read_components(items, log);
            },
            None => {},
        },
        None => {},
    }
    let out: Vec<Component> = Vec::new();
    proof {
        assert(component_items(doc@) =~= Seq::<JsonModel>::empty());
        assert(log@ =~= old(log)@ + components_skips(out@, component_items(doc@), 0));
    }
    out
}

/// Reads the two flags of an availability record.
pub fn read_availability(v: Option<&JsonValue>) -> (r: Option<(bool, bool)>)
    ensures
        r == availability(
            match v {
                Some(x) => Some(x@),
                None => None,
            },
        ),
{
    match v {
        Some(x) => match (x.get_bool("suspension"), x.get_bool("available")) {
            (Some(suspension), Some(available)) => Some((suspension, available)),
            _ => None,
        },
        None => None,
    }
}

/// Reads what identifies a document.
pub fn read_params(v: Option<&JsonValue>) -> (r: Option<Params>)
    ensures
        is_params_of(
            r,
            match v {
                Some(x) => Some(x@),
                None => None,
            },
        ),
{
    match v {
        Some(x) => match (x.get_str("type"), x.get_str("code"), x.get_str("year")) {
            (Some(kind), Some(code), Some(year)) => Some(Params { kind, code, year }),
            _ => None,
        },
        None => None,
    }
}

/// Reads whether and to whom a program is offered.
pub fn read_status(v: Option<&JsonValue>) -> (r: Option<Status>)
    ensures
        r == status_of(
            match v {
                Some(x) => Some(x@),
                None => None,
            },
        ),
{
    match v {
        Some(x) => {
            let no_longer_offered = match x.get_bool("noLongerOffered") {
                Some(b) => b,
                None => {
                    return None;
                },
            };
            let domestic = match read_availability(x.get("domestic")) {
                Some(flags) => Domestic { suspension: flags.0, available: flags.1 },
                None => {
                    return None;
                },
            };
            let international = match read_availability(x.get("international")) {
                Some(flags) => Some(International { suspension: flags.0, available: flags.1 }),
                None => None,
            };
            Some(Status { no_longer_offered, domestic, international })
        },
        None => None,
    }
}

/// Reads the years that a document offers.
pub fn read_year_options(doc: &JsonValue) -> (r: Vec<String>)
    ensures
        texts(r@) == year_options_of(doc@),
{
    let mut out: Vec<String> = Vec::new();
    match doc.get_items("yearOptions") {
        Some(items) => {
            let ghost ms = models(items@, items@.len() as int);
            proof {
                lemma_models(items@, items@.len() as int);
            }
            let mut i: usize = 0;
            while i < items.len()
                invariant
                    i <= items.len(),
                    ms == models(items@, items@.len() as int),
                    ms.len() == items@.len(),
                    forall|j: int| 0 <= j < items@.len() ==> #[trigger] ms[j] == model(items@[j]),
                    items_field(doc@, "yearOptions"@) == Some(ms),
                    out@.len() == i,
                    forall|j: int|
                        0 <= j < i ==> (#[trigger] ms[j]) is Str && ms[j]->Str_0 == out@[j]@,
                decreases items.len() - i,
            {
                assert(ms[i as int] == items@[i as int]@);
                match &items[i] {
                    JsonValue::Str(s) => {
                        out.push(s.clone());
                    },
                    _ => {
                        assert(!(ms[i as int] is Str));
                        let none: Vec<String> = Vec::new();
                        assert(texts(none@) =~= Seq::<Seq<char>>::empty());
                        return none;
                    },
                }
                i = i + 1;
            }
            assert(texts(out@) =~= Seq::new(ms.len(), |i: int| ms[i]->Str_0));
        },
        None => {
            assert(texts(out@) =~= Seq::<Seq<char>>::empty());
        },
    }
    out
}

/// Reads what a document says of the program besides its requirements.
pub fn read_info(doc: &JsonValue) -> (r: DegreeInfo)
    ensures
        is_info_of(r, doc@),
{
    DegreeInfo {
        title: doc.get_str("title"),
        params: read_params(doc.get("params")),
        status: read_status(doc.get("status")),
        year_options: read_year_options(doc),
    }
}

/// Reads a requirement document. It never fails: what cannot be read is left
/// out and put on record.
pub fn ingest_document(doc: &JsonValue) -> (r: IngestReport)
    ensures
        is_info_of(r.info, doc@),
        is_requirements_of(r.requirements, doc@),
        r.skipped@ == components_skips(
            r.requirements.components@,
            component_items(doc@),
            component_items(doc@).len() as int,
        ),
{
    let mut skipped: Vec<SkipRecord> = Vec::new();
    let components = read_document_components(doc, &mut skipped);
    let record = match doc.get("programRequirements") {
        Some(x) => x,
        None => doc,
    };
    let requirements = ProgramRequirements {
        code: record.get_str("code"),
        name: record.get_str("name"),
        year_applied: record.get_str("yearApplied"),
        applicable_period: read_period(record.get("applicablePeriod")),
        units_minimum: record.get_int("unitsMinimum"),
        units_maximum: record.get_int("unitsMaximum"),
        components,
    };
    proof {
        assert(skipped@ =~= components_skips(
            components@,
            component_items(doc@),
            component_items(doc@).len() as int,
        ));
    }
    IngestReport { info: read_info(doc), requirements, skipped }
}

} // verus!
