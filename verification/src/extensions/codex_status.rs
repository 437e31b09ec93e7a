//! Whether Codex works, as its status page tells.

use crate::extensions::ui_helpers::{
    api_timestamp, capitalize_first, capitalized, format_api_timestamp,
};
use crate::http::{bare_request, HttpRequest, HttpResponse, Method, RequestModel, ResponseModel};
use crate::json::{json_bytes_outcome, Json};
use crate::text::{concat, same, starts_with};
use vstd::prelude::*;

verus! {

broadcast use vstd::string::group_string_axioms;

/// The wait between two looks at the status page, in seconds.
pub const STATUS_INTERVAL_SECS: u64 = 60;

/// One message on an incident.
#[derive(Clone, Debug, PartialEq, Eq)]
pub struct IncidentUpdate {
    pub status: String,
    pub body: String,
    pub created_at: String,
}

/// An [`IncidentUpdate`] with its texts as sequences.
pub struct UpdateText {
    pub status: Seq<char>,
    pub body: Seq<char>,
    pub created_at: Seq<char>,
}

impl DeepView for IncidentUpdate {
    type V = UpdateText;

    open spec fn deep_view(&self) -> UpdateText {
        UpdateText { status: self.status@, body: self.body@, created_at: self.created_at@ }
    }
}

/// An incident that is not resolved.
#[derive(Clone, Debug, PartialEq, Eq)]
pub struct Incident {
    pub name: String,
    pub impact: String,
    pub updates: Vec<IncidentUpdate>,
}

/// An [`Incident`] with its texts as sequences.
pub struct IncidentModel {
    pub name: Seq<char>,
    pub impact: Seq<char>,
    pub updates: Seq<UpdateText>,
}

impl DeepView for Incident {
    type V = IncidentModel;

    open spec fn deep_view(&self) -> IncidentModel {
        IncidentModel {
            name: self.name@,
            impact: self.impact@,
            updates: self.updates.deep_view(),
        }
    }
}

/// What the status page tells of Codex.
#[derive(Clone, Debug, PartialEq, Eq)]
pub struct StatusData {
    pub status: String,
    pub incidents: Vec<Incident>,
}

/// A [`StatusData`] with its texts as sequences.
pub struct StatusPage {
    pub status: Seq<char>,
    pub incidents: Seq<IncidentModel>,
}

impl DeepView for StatusData {
    type V = StatusPage;

    open spec fn deep_view(&self) -> StatusPage {
        StatusPage { status: self.status@, incidents: self.incidents.deep_view() }
    }
}

/// The text under a key, or another.
pub open spec fn text_field_or(document: Json, key: Seq<char>, other: Seq<char>) -> Seq<char> {
    match document.field_text(key) {
        Some(text) => text,
        None => other,
    }
}

fn str_field_or<'a>(document: &'a Json, key: &str, other: &'a str) -> (r: &'a str)
    ensures
        r@ == text_field_or(*document, key@, other@),
{
    match document.get_str(key) {
        Some(text) => text,
        None => other,
    }
}

/// Whether a component is Codex, by its name: `Codex` or `Codex` and more.
pub open spec fn is_codex(component: Json) -> bool {
    let name = text_field_or(component, "name"@, ""@);
    name == "Codex"@ || "Codex "@.is_prefix_of(name)
}

/// The first component from `from` on that is Codex.
pub open spec fn codex_component(components: Seq<Json>, from: int) -> Option<Json>
    decreases components.len() - from,
{
    if from < 0 || from >= components.len() {
        None
    } else if is_codex(components[from]) {
        Some(components[from])
    } else {
        codex_component(components, from + 1)
    }
}

fn find_codex(components: &Vec<Json>) -> (r: Option<&Json>)
    ensures
        match r {
            Some(component) => codex_component(components@, 0) == Some(*component),
            None => codex_component(components@, 0) is None,
        },
{
    let mut i: usize = 0;
    while i < components.len()
        invariant
            i <= components@.len(),
            codex_component(components@, i as int) == codex_component(components@, 0),
        decreases components@.len() - i,
    {
        let name: &str = str_field_or(&components[i], "name", "");
        if same(name, "Codex") || starts_with(name, "Codex ") {
            return Some(&components[i]);
        }
        i = i + 1;
    }
    None
}

/// Whether one of the components has an id.
pub open spec fn has_id(components: Seq<Json>, id: Seq<char>) -> bool {
    exists|i: int| 0 <= i < components.len() && #[trigger] components[i].field_text("id"@) == Some(id)
}

/// Whether an incident affects the component with an id.
pub open spec fn affects(incident: Json, id: Seq<char>) -> bool {
    match incident.field_elements("components"@) {
        Some(components) => has_id(components, id),
        None => false,
    }
}

fn is_affected(incident: &Json, id: &str) -> (r: bool)
    ensures
        r == affects(*incident, id@),
{
    let components: &Vec<Json> = match incident.get_array("components") {
        Some(components) => components,
        None => return false,
    };
    let mut i: usize = 0;
    while i < components.len()
        invariant
            i <= components@.len(),
            incident.field_elements("components"@) == Some(components@),
            forall|j: int|
                0 <= j < i ==> #[trigger] components@[j].field_text("id"@) != Some(id@),
        decreases components@.len() - i,
    {
        if let Some(found) = components[i].get_str("id") {
            if same(found, id) {
                assert(components@[i as int].field_text("id"@) == Some(id@));
                return true;
            }
        }
        i = i + 1;
    }
    false
}

/// The message that a document describes.
pub open spec fn update_of(document: Json) -> UpdateText {
    UpdateText {
        status: text_field_or(document, "status"@, ""@),
        body: text_field_or(document, "body"@, ""@),
        created_at: api_timestamp(text_field_or(document, "created_at"@, ""@)),
    }
}

/// The incident that a document describes.
pub open spec fn incident_of(document: Json) -> IncidentModel {
    IncidentModel {
        name: text_field_or(document, "name"@, "Unknown"@),
        impact: text_field_or(document, "impact"@, "none"@),
        updates: match document.field_elements("incident_updates"@) {
            Some(updates) => Seq::new(updates.len(), |i: int| update_of(updates[i])),
            None => Seq::empty(),
        },
    }
}

fn read_update(document: &Json) -> (r: IncidentUpdate)
    ensures
        r.deep_view() == update_of(*document),
{
    IncidentUpdate {
        status: str_field_or(document, "status", "").to_owned(),
        body: str_field_or(document, "body", "").to_owned(),
        created_at: format_api_timestamp(str_field_or(document, "created_at", "")),
    }
}

fn read_incident(document: &Json) -> (r: Incident)
    ensures
        r.deep_view() == incident_of(*document),
{
    let mut updates: Vec<IncidentUpdate> = Vec::new();
    if let Some(found) = document.get_array("incident_updates") {
        let mut i: usize = 0;
        while i < found.len()
            invariant
                i <= found@.len(),
                updates@.len() == i,
                forall|j: int|
                    0 <= j < i ==> (#[trigger] updates@[j]).deep_view() == update_of(found@[j]),
            decreases found@.len() - i,
        {
            updates.push(read_update(&found[i]));
            i = i + 1;
        }
    }
    assert(updates.deep_view() == incident_of(*document).updates);
    Incident {
        name: str_field_or(document, "name", "Unknown").to_owned(),
        impact: str_field_or(document, "impact", "none").to_owned(),
        updates,
    }
}

/// The incidents among documents that affect the component with an id.
pub open spec fn incidents_of(documents: Seq<Json>, id: Seq<char>) -> Seq<IncidentModel>
    decreases documents.len(),
{
    if documents.len() == 0 {
        Seq::empty()
    } else {
        let before = incidents_of(documents.drop_last(), id);
        if affects(documents.last(), id) {
            before.push(incident_of(documents.last()))
        } else {
            before
        }
    }
}

/// What a status page tells of Codex; `None` where it does not tell.
pub open spec fn page_of(summary: Json) -> Option<StatusPage> {
    match summary.field_elements("components"@) {
        Some(components) => match codex_component(components, 0) {
            Some(component) => match (
                component.field_text("status"@),
                component.field_text("id"@),
            ) {
                (Some(status), Some(id)) => Some(
                    StatusPage {
                        status,
                        incidents: match summary.field_elements("incidents"@) {
                            Some(documents) => incidents_of(documents, id),
                            None => Seq::empty(),
                        },
                    },
                ),
                _ => None,
            },
            None => None,
        },
        None => None,
    }
}

/// Reads the summary of the status page.
pub fn read_status(summary: &Json) -> (r: Option<StatusData>)
    ensures
        r.deep_view() == page_of(*summary),
{
    let components: &Vec<Json> = match summary.get_array("components") {
        Some(components) => components,
        None => return None,
    };
    let component: &Json = match find_codex(components) {
        Some(component) => component,
        None => return None,
    };
    let (status, id): (&str, &str) = match (component.get_str("status"), component.get_str("id")) {
        (Some(status), Some(id)) => (status, id),
        _ => return None,
    };
    let mut incidents: Vec<Incident> = Vec::new();
    assert(incidents.deep_view() == Seq::<IncidentModel>::empty());
    if let Some(documents) = summary.get_array("incidents") {
        let mut i: usize = 0;
        while i < documents.len()
            invariant
                i <= documents@.len(),
                incidents.deep_view() == incidents_of(documents@.take(i as int), id@),
            decreases documents@.len() - i,
        {
            let ghost before = incidents.deep_view();
            assert(documents@.take(i + 1).drop_last() == documents@.take(i as int));
            if is_affected(&documents[i], id) {
                let incident: Incident = read_incident(&documents[i]);
                let ghost model = incident.deep_view();
                incidents.push(incident);
                assert(incidents.deep_view() == before.push(model));
            }
            i = i + 1;
        }
        assert(documents@.take(documents@.len() as int) == documents@);
    }
    Some(StatusData { status: status.to_owned(), incidents })
}

/// The colour of the status.
#[derive(Clone, Copy, Debug, PartialEq, Eq, Structural)]
pub enum StatusTone {
    Good,
    Warning,
    Critical,
    Quiet,
}

/// The label and the colour of a status; `None` before the first look.
pub open spec fn label_model(status: Option<Seq<char>>) -> (Seq<char>, StatusTone) {
    match status {
        Some(s) => if s == "operational"@ {
            ("OK"@, StatusTone::Good)
        } else if s == "degraded_performance"@ {
            ("Degraded"@, StatusTone::Warning)
        } else if s == "partial_outage"@ {
            ("Partial Outage"@, StatusTone::Warning)
        } else if s == "major_outage"@ {
            ("Major Outage"@, StatusTone::Critical)
        } else if s == "under_maintenance"@ {
            ("Maintenance"@, StatusTone::Quiet)
        } else {
            ("Unknown"@, StatusTone::Quiet)
        },
        None => ("..."@, StatusTone::Quiet),
    }
}

/// The label and the colour of a status.
pub fn status_label(status: Option<&str>) -> (r: (&'static str, StatusTone))
    ensures
        (r.0@, r.1) == label_model(status.deep_view()),
{
    match status {
        Some(s) => if same(s, "operational") {
            ("OK", StatusTone::Good)
        } else if same(s, "degraded_performance") {
            ("Degraded", StatusTone::Warning)
        } else if same(s, "partial_outage") {
            ("Partial Outage", StatusTone::Warning)
        } else if same(s, "major_outage") {
            ("Major Outage", StatusTone::Critical)
        } else if same(s, "under_maintenance") {
            ("Maintenance", StatusTone::Quiet)
        } else {
            ("Unknown", StatusTone::Quiet)
        },
        None => ("...", StatusTone::Quiet),
    }
}

/// The colour of an incident by its impact.
pub fn impact_tone(impact: &str) -> (r: StatusTone)
    ensures
        r == tone_of_impact(impact@),
{
    if same(impact, "critical") || same(impact, "major") {
        StatusTone::Critical
    } else {
        StatusTone::Warning
    }
}

// ---------------------------------------------------------------------------
// Asking
// ---------------------------------------------------------------------------

/// The request for the summary of the status page.
pub open spec fn status_request_model() -> RequestModel {
    RequestModel {
        timeout_ms: Some(10000),
        label: Some("codex.status"@),
        min_interval: Some(5000000000),
        ..bare_request(Method::Get, "https://status.openai.com/api/v2/summary.json"@)
    }
}

/// The request for the summary of the status page. Looks are a minute apart;
/// the rate floor only stops a loop that has run away.
pub fn status_request() -> (r: HttpRequest)
    ensures
        r.deep_view() == status_request_model(),
{
    HttpRequest::get("https://status.openai.com/api/v2/summary.json").timeout(10000).label(
        "codex.status",
    ).min_interval(5000000000)
}

/// What an answer tells of Codex, whatever its status code.
pub open spec fn page_of_answer(answer: Option<ResponseModel>) -> Option<StatusPage> {
    match answer {
        Some(response) => match json_bytes_outcome(response.body) {
            Ok(summary) => page_of(summary),
            Err(_) => None,
        },
        None => None,
    }
}

/// What to show after a look: what the answer tells, or what was shown before
/// where it tells nothing. `None` is an answer that did not come.
pub fn after_look(shown: Option<StatusData>, answer: Option<HttpResponse>) -> (r: Option<StatusData>)
    ensures
        r.deep_view() == (match page_of_answer(
            match answer {
                Some(response) => Some(response.view()),
                None => None,
            },
        ) {
            Some(page) => Some(page),
            None => shown.deep_view(),
        }),
{
    let summary: Json = match answer {
        Some(response) => match response.json() {
            Ok(summary) => summary,
            Err(_) => return shown,
        },
        None => return shown,
    };
    match read_status(&summary) {
        Some(page) => Some(page),
        None => shown,
    }
}

// ---------------------------------------------------------------------------
// The popover
// ---------------------------------------------------------------------------

/// An incident in the popover: its colour, its name, and what each message shows:
/// the status, the text and the time.
#[derive(Clone, Debug, PartialEq, Eq)]
pub struct IncidentCard {
    /// Whether a line parts it from the card above.
    pub parted: bool,
    pub tone: StatusTone,
    pub name: String,
    pub updates: Vec<(String, String, String)>,
}

/// An [`IncidentCard`] with its texts as sequences.
pub struct CardModel {
    pub parted: bool,
    pub tone: StatusTone,
    pub name: Seq<char>,
    pub updates: Seq<(Seq<char>, Seq<char>, Seq<char>)>,
}

impl DeepView for IncidentCard {
    type V = CardModel;

    open spec fn deep_view(&self) -> CardModel {
        CardModel {
            parted: self.parted,
            tone: self.tone,
            name: self.name@,
            updates: self.updates.deep_view(),
        }
    }
}

/// The colour of an incident by its impact.
pub open spec fn tone_of_impact(impact: Seq<char>) -> StatusTone {
    if impact == "critical"@ || impact == "major"@ {
        StatusTone::Critical
    } else {
        StatusTone::Warning
    }
}

/// What a message shows.
pub open spec fn shown_update(update: UpdateText) -> (Seq<char>, Seq<char>, Seq<char>) {
    (capitalized(update.status), "- "@ + update.body, update.created_at)
}

/// The card of the `i`-th incident.
pub open spec fn card_of(incidents: Seq<IncidentModel>, i: int) -> CardModel {
    CardModel {
        parted: i > 0,
        tone: tone_of_impact(incidents[i].impact),
        name: incidents[i].name,
        updates: incidents[i].updates.map_values(|u: UpdateText| shown_update(u)),
    }
}

/// What the popover shows: a card for each incident, and nothing at all while it
/// is hidden or all is well.
pub open spec fn popover_model(page: Option<StatusPage>, visible: bool) -> Seq<CardModel> {
    match page {
        Some(page) => if visible {
            Seq::new(page.incidents.len(), |i: int| card_of(page.incidents, i))
        } else {
            Seq::empty()
        },
        None => Seq::empty(),
    }
}

fn card(incident: &Incident, parted: bool) -> (r: IncidentCard)
    ensures
        r.deep_view() == (CardModel {
            parted,
            tone: tone_of_impact(incident.impact@),
            name: incident.name@,
            updates: incident.updates.deep_view().map_values(|u: UpdateText| shown_update(u)),
        }),
{
    let mut updates: Vec<(String, String, String)> = Vec::new();
    let ghost all = incident.updates.deep_view().map_values(|u: UpdateText| shown_update(u));
    let mut i: usize = 0;
    assert(updates.deep_view() == all.take(0));
    while i < incident.updates.len()
        invariant
            i <= incident.updates@.len(),
            all == incident.updates.deep_view().map_values(|u: UpdateText| shown_update(u)),
            updates.deep_view() == all.take(i as int),
        decreases incident.updates@.len() - i,
    {
        let ghost before = updates.deep_view();
        let update: &IncidentUpdate = &incident.updates[i];
        updates.push(
            (
                capitalize_first(update.status.as_str()),
                concat("- ", update.body.as_str()),
                update.created_at.clone(),
            ),
        );
        assert(updates.deep_view() == before.push(all[i as int]));
        assert(all.take(i + 1) == all.take(i as int).push(all[i as int]));
        i = i + 1;
    }
    assert(all.take(all.len() as int) == all);
    IncidentCard {
        parted,
        tone: impact_tone(incident.impact.as_str()),
        name: incident.name.clone(),
        updates,
    }
}

/// The cards of the popover.
pub fn render_popover(page: &Option<StatusData>, visible: bool) -> (r: Vec<IncidentCard>)
    ensures
        r.deep_view() == popover_model(page.deep_view(), visible),
{
    let mut cards: Vec<IncidentCard> = Vec::new();
    let ghost all = popover_model(page.deep_view(), visible);
    if let Some(page) = page {
        if visible {
            let mut i: usize = 0;
            assert(cards.deep_view() == all.take(0));
            while i < page.incidents.len()
                invariant
                    i <= page.incidents@.len(),
                    all == Seq::new(
                        page.incidents@.len(),
                        |i: int| card_of(page.incidents.deep_view(), i),
                    ),
                    cards.deep_view() == all.take(i as int),
                decreases page.incidents@.len() - i,
            {
                let ghost before = cards.deep_view();
                cards.push(card(&page.incidents[i], i > 0));
                assert(cards.deep_view() == before.push(all[i as int]));
                assert(all.take(i + 1) == all.take(i as int).push(all[i as int]));
                i = i + 1;
            }
            assert(all.take(all.len() as int) == all);
            return cards;
        }
    }
    assert(cards.deep_view() == all);
    cards
}

/// The indicator: its label and colour, and whether hovering shows anything.
pub fn render(page: &Option<StatusData>) -> (r: (&'static str, StatusTone, bool))
    ensures
        (r.0@, r.1) == label_model(
            match page.deep_view() {
                Some(page) => Some(page.status),
                None => None,
            },
        ),
        r.2 <==> popover_model(page.deep_view(), true).len() > 0,
{
    match page {
        Some(page) => {
            let (label, tone): (&'static str, StatusTone) = status_label(Some(page.status.as_str()));
            (label, tone, page.incidents.len() > 0)
        },
        None => {
            let (label, tone): (&'static str, StatusTone) = status_label(None);
            (label, tone, false)
        },
    }
}

// ---------------------------------------------------------------------------
// Laws
// ---------------------------------------------------------------------------

proof fn first_codex_counts(components: Seq<Json>, from: int, i: int)
    requires
        0 <= from <= i < components.len(),
        is_codex(components[i]),
        forall|k: int| from <= k < i ==> !is_codex(#[trigger] components[k]),
    ensures
        codex_component(components, from) == Some(components[i]),
    decreases i - from,
{
    if from < i {
        first_codex_counts(components, from + 1, i);
    }
}

/// The page tells the status of the first component that goes by the name, and no
/// other component's.
pub proof fn first_component_counts(
    summary: Json,
    components: Seq<Json>,
    i: int,
    status: Seq<char>,
    id: Seq<char>,
)
    requires
        summary.field_elements("components"@) == Some(components),
        0 <= i < components.len(),
        components[i].field_text("name"@) == Some("Codex"@),
        forall|k: int| 0 <= k < i ==> !is_codex(#[trigger] components[k]),
        components[i].field_text("status"@) == Some(status),
        components[i].field_text("id"@) == Some(id),
    ensures
        page_of(summary) matches Some(page) && {
            &&& page.status == status
            &&& summary.field_elements("incidents"@) matches Some(documents) ==> page.incidents
                == incidents_of(documents, id)
            &&& summary.field_elements("incidents"@) is None ==> page.incidents.len() == 0
        },
{
    first_codex_counts(components, 0, i);
}

/// A summary without the component has no page.
pub proof fn missing_components_have_no_page(summary: Json, components: Seq<Json>)
    requires
        summary.field_elements("components"@) == Some(components),
        forall|k: int| 0 <= k < components.len() ==> !is_codex(#[trigger] components[k]),
    ensures
        page_of(summary) is None,
{
    no_codex(components, 0);
}

proof fn no_codex(components: Seq<Json>, from: int)
    requires
        0 <= from,
        forall|k: int| 0 <= k < components.len() ==> !is_codex(#[trigger] components[k]),
    ensures
        codex_component(components, from) is None,
    decreases components.len() - from,
{
    if from < components.len() {
        no_codex(components, from + 1);
    }
}

/// An incident is on the page just where it affects the component, and incidents
/// keep their order.
pub proof fn affecting_incidents_are_listed(
    documents: Seq<Json>,
    more: Seq<Json>,
    document: Json,
    components: Seq<Json>,
    i: int,
    id: Seq<char>,
)
    requires
        document.field_elements("components"@) == Some(components),
    ensures
        incidents_of(documents + more, id) == incidents_of(documents, id) + incidents_of(more, id),
        0 <= i < components.len() && components[i].field_text("id"@) == Some(id) ==> incidents_of(
            seq![document],
            id,
        ) == seq![incident_of(document)],
        (forall|k: int|
            0 <= k < components.len() ==> #[trigger] components[k].field_text("id"@) != Some(id))
            ==> incidents_of(seq![document], id).len() == 0,
    decreases more.len(),
{
    assert(seq![document].drop_last() == Seq::<Json>::empty());
    assert(incidents_of(Seq::<Json>::empty(), id) == Seq::<IncidentModel>::empty());
    if 0 <= i < components.len() && components[i].field_text("id"@) == Some(id) {
        assert(has_id(components, id));
        assert(incidents_of(seq![document], id) =~= seq![incident_of(document)]);
    }
    if more.len() == 0 {
        assert(documents + more == documents);
        assert(incidents_of(documents, id) + incidents_of(more, id) == incidents_of(
            documents,
            id,
        ));
    } else {
        affecting_incidents_are_listed(documents, more.drop_last(), document, components, i, id);
        assert((documents + more).drop_last() == documents + more.drop_last());
        assert(incidents_of(documents + more, id) =~= incidents_of(documents, id) + incidents_of(
            more,
            id,
        ));
    }
}

/// An incident is told as the document tells it, with each of its updates in order.
pub proof fn incidents_are_told(
    document: Json,
    name: Seq<char>,
    impact: Seq<char>,
    updates: Seq<Json>,
    i: int,
    body: Seq<char>,
)
    requires
        document.field_text("name"@) == Some(name),
        document.field_text("impact"@) == Some(impact),
        document.field_elements("incident_updates"@) == Some(updates),
        0 <= i < updates.len(),
        updates[i].field_text("body"@) == Some(body),
    ensures
        ({
            let incident = incident_of(document);
            &&& incident.name == name
            &&& incident.impact == impact
            &&& incident.updates.len() == updates.len()
            &&& incident.updates[i].body == body
            &&& updates[i].field_text("status"@) matches Some(status) ==> incident.updates[i].status
                == status
            &&& updates[i].field_text("created_at"@) matches Some(at)
                ==> incident.updates[i].created_at == api_timestamp(at)
        }),
{
}

/// Only a status of full operation is good, and a major outage is critical; a status
/// that is not known yet is neither.
pub proof fn only_operation_is_good(status: Seq<char>)
    ensures
        label_model(Some(status)).1 is Good <==> status == "operational"@,
        label_model(Some("major_outage"@)).1 is Critical,
        label_model(Some(status)).1 is Critical ==> status == "major_outage"@,
        label_model(Some("partial_outage"@)).1 is Warning,
        label_model(Some("degraded_performance"@)).1 is Warning,
        label_model(None).1 is Quiet,
{
    reveal_strlit("operational");
    reveal_strlit("degraded_performance");
    reveal_strlit("partial_outage");
    reveal_strlit("major_outage");
    assert("operational"@.len() == 11);
    assert("degraded_performance"@.len() == 20);
    assert("partial_outage"@.len() == 14);
    assert("major_outage"@.len() == 12);
}

/// Every incident has its card, in order, with a line above all but the first and
/// with each update as it was told; only a critical or major impact is critical.
pub proof fn every_incident_has_a_card(page: StatusPage, i: int, j: int)
    requires
        0 <= i < page.incidents.len(),
    ensures
        popover_model(Some(page), true).len() == page.incidents.len(),
        popover_model(Some(page), true)[i].name == page.incidents[i].name,
        popover_model(Some(page), true)[i].parted <==> i > 0,
        popover_model(Some(page), true)[i].tone is Critical <==> page.incidents[i].impact
            == "critical"@ || page.incidents[i].impact == "major"@,
        popover_model(Some(page), true)[i].updates.len() == page.incidents[i].updates.len(),
        0 <= j < page.incidents[i].updates.len() ==> {
            let update = page.incidents[i].updates[j];
            popover_model(Some(page), true)[i].updates[j] == (
                capitalized(update.status),
                "- "@ + update.body,
                update.created_at,
            )
        },
        popover_model(Some(page), false).len() == 0,
        popover_model(None, true).len() == 0,
{
}

/// What an answer that can be read tells is the page, and no answer is none.
pub proof fn answers_are_pages(response: ResponseModel, summary: Json)
    requires
        json_bytes_outcome(response.body) == Ok::<Json, Seq<char>>(summary),
    ensures
        page_of_answer(Some(response)) == page_of(summary),
        page_of_answer(None) is None,
{
}

/// A component goes by the name where it is the name alone or a word follows it; a
/// longer word that merely begins like the name is another component.
pub proof fn only_the_name_counts(component: Json, rest: Seq<char>)
    ensures
        component.field_text("name"@) == Some("Codex"@) ==> is_codex(component),
        component.field_text("name"@) == Some("Codex"@ + " "@ + rest) ==> is_codex(component),
        component.field_text("name"@) == Some("Codex"@ + rest) && rest.len() > 0 && rest[0] != ' '
            ==> !is_codex(component),
        component.field_text("name"@) is None ==> !is_codex(component),
{
    reveal_strlit("Codex");
    reveal_strlit("Codex ");
    reveal_strlit(" ");
    reveal_strlit("");
    assert("Codex "@ =~= "Codex"@ + " "@);
    assert("Codex "@.is_prefix_of("Codex"@ + " "@ + rest));
    assert("Codex"@.len() == 5 && "Codex "@.len() == 6 && ""@.len() == 0);
    let name = "Codex"@ + rest;
    if rest.len() > 0 && rest[0] != ' ' {
        assert(name.len() > 5);
        if "Codex "@.is_prefix_of(name) {
            assert(name[5] == "Codex "@[5]);
            assert(name[5] == rest[0]);
        }
    }
    if "Codex "@.is_prefix_of(""@) {
        assert("Codex "@.len() <= ""@.len());
    }
}

} // verus!
