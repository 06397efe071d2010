//! The persistence store: how a notice becomes rows, which writes store it,
//! and what those writes do to the tables.
//!
//! The durable store is a relational database that lives outside this crate.
//! This module holds what is decided before anything is written: the mapping
//! from the wire shape to columns, the statements of each write in their
//! order, and, as [`Database`], the tables themselves with the meaning of each
//! statement on them.

use vstd::prelude::*;
use crate::api::{
    opt_place_value, ApiResponse, AwardView, AwardeeView, Opportunity, OpportunityView,
    PlaceOfPerformanceView, PlaceValue, PlaceValueView, PointOfContact, PointOfContactView,
};
use crate::text::{
    copy_opt, opt_str, opt_text, opt_texts, same_string, text_before, text_less, texts,
};

verus! {

/// The failure of `serde_json` to write a value.
#[verifier::external_type_specification]
#[verifier::external_body]
pub struct ExJsonError(serde_json::Error);

/// The JSON text that `serde_json` writes for a list of strings, and `None`
/// where it fails to write one.
pub uninterp spec fn json_text(items: Seq<Seq<char>>) -> Option<Seq<char>>;

/// Writes a list of strings as one JSON text.
///
/// Trusted: the body is `serde_json::to_string`. The contract only names the
/// outcome, as a function of the strings alone.
#[verifier::external_body]
fn write_json(items: &Vec<String>) -> (written: Result<String, serde_json::Error>)
    ensures
        match written {
            Ok(text) => json_text(texts(items@)) == Some(text@),
            Err(_) => json_text(texts(items@)) is None,
        },
{
    serde_json::to_string(items)
}

/// The view of an optional row.
pub open spec fn opt_row(row: Option<OpportunityRow>) -> Option<OpportunityRowView> {
    match row {
        Some(inner) => Some(inner@),
        None => None,
    }
}

/// One row of the `opportunities` table: a notice with its nested parts laid
/// out as scalar columns. The two timestamps of a row are the durable store's
/// own and are not held here.
#[derive(Debug, Clone)]
pub struct OpportunityRow {
    /// The natural key.
    pub notice_id: String,
    pub title: Option<String>,
    pub solicitation_number: Option<String>,
    pub department: Option<String>,
    pub sub_tier: Option<String>,
    pub office: Option<String>,
    pub full_parent_path_name: Option<String>,
    pub organization_type: Option<String>,
    pub opp_type: Option<String>,
    pub base_type: Option<String>,
    pub posted_date: Option<String>,
    pub response_deadline: Option<String>,
    pub archive_date: Option<String>,
    pub naics_code: Option<String>,
    pub classification_code: Option<String>,
    pub set_aside: Option<String>,
    pub set_aside_description: Option<String>,
    pub description: Option<String>,
    pub ui_link: Option<String>,
    pub active: Option<String>,
    pub resource_links: Option<String>,
    pub award_amount: Option<String>,
    pub award_date: Option<String>,
    pub award_number: Option<String>,
    pub awardee_name: Option<String>,
    pub awardee_duns: Option<String>,
    pub awardee_uei_sam: Option<String>,
    pub pop_state_code: Option<String>,
    pub pop_state_name: Option<String>,
    pub pop_city_code: Option<String>,
    pub pop_city_name: Option<String>,
    pub pop_country_code: Option<String>,
    pub pop_country_name: Option<String>,
    pub pop_zip: Option<String>,
}

/// What an [`OpportunityRow`] holds, as plain mathematical values.
pub struct OpportunityRowView {
    pub notice_id: Seq<char>,
    pub title: Option<Seq<char>>,
    pub solicitation_number: Option<Seq<char>>,
    pub department: Option<Seq<char>>,
    pub sub_tier: Option<Seq<char>>,
    pub office: Option<Seq<char>>,
    pub full_parent_path_name: Option<Seq<char>>,
    pub organization_type: Option<Seq<char>>,
    pub opp_type: Option<Seq<char>>,
    pub base_type: Option<Seq<char>>,
    pub posted_date: Option<Seq<char>>,
    pub response_deadline: Option<Seq<char>>,
    pub archive_date: Option<Seq<char>>,
    pub naics_code: Option<Seq<char>>,
    pub classification_code: Option<Seq<char>>,
    pub set_aside: Option<Seq<char>>,
    pub set_aside_description: Option<Seq<char>>,
    pub description: Option<Seq<char>>,
    pub ui_link: Option<Seq<char>>,
    pub active: Option<Seq<char>>,
    pub resource_links: Option<Seq<char>>,
    pub award_amount: Option<Seq<char>>,
    pub award_date: Option<Seq<char>>,
    pub award_number: Option<Seq<char>>,
    pub awardee_name: Option<Seq<char>>,
    pub awardee_duns: Option<Seq<char>>,
    pub awardee_uei_sam: Option<Seq<char>>,
    pub pop_state_code: Option<Seq<char>>,
    pub pop_state_name: Option<Seq<char>>,
    pub pop_city_code: Option<Seq<char>>,
    pub pop_city_name: Option<Seq<char>>,
    pub pop_country_code: Option<Seq<char>>,
    pub pop_country_name: Option<Seq<char>>,
    pub pop_zip: Option<Seq<char>>,
}

impl View for OpportunityRow {
    type V = OpportunityRowView;

    open spec fn view(&self) -> OpportunityRowView {
        OpportunityRowView {
            notice_id: self.notice_id@,
            title: opt_text(self.title),
            solicitation_number: opt_text(self.solicitation_number),
            department: opt_text(self.department),
            sub_tier: opt_text(self.sub_tier),
            office: opt_text(self.office),
            full_parent_path_name: opt_text(self.full_parent_path_name),
            organization_type: opt_text(self.organization_type),
            opp_type: opt_text(self.opp_type),
            base_type: opt_text(self.base_type),
            posted_date: opt_text(self.posted_date),
            response_deadline: opt_text(self.response_deadline),
            archive_date: opt_text(self.archive_date),
            naics_code: opt_text(self.naics_code),
            classification_code: opt_text(self.classification_code),
            set_aside: opt_text(self.set_aside),
            set_aside_description: opt_text(self.set_aside_description),
            description: opt_text(self.description),
            ui_link: opt_text(self.ui_link),
            active: opt_text(self.active),
            resource_links: opt_text(self.resource_links),
            award_amount: opt_text(self.award_amount),
            award_date: opt_text(self.award_date),
            award_number: opt_text(self.award_number),
            awardee_name: opt_text(self.awardee_name),
            awardee_duns: opt_text(self.awardee_duns),
            awardee_uei_sam: opt_text(self.awardee_uei_sam),
            pop_state_code: opt_text(self.pop_state_code),
            pop_state_name: opt_text(self.pop_state_name),
            pop_city_code: opt_text(self.pop_city_code),
            pop_city_name: opt_text(self.pop_city_name),
            pop_country_code: opt_text(self.pop_country_code),
            pop_country_name: opt_text(self.pop_country_name),
            pop_zip: opt_text(self.pop_zip),
        }
    }
}

/// The award of a notice, where it has one.
pub open spec fn award_of(opp: OpportunityView) -> AwardView {
    match opp.award {
        Some(award) => award,
        None => AwardView { amount: None, date: None, number: None, awardee: None },
    }
}

/// The awardee of a notice, where it has an award with one.
pub open spec fn awardee_of(opp: OpportunityView) -> AwardeeView {
    match award_of(opp).awardee {
        Some(awardee) => awardee,
        None => AwardeeView { name: None, duns: None, uei_sam: None },
    }
}

/// The place of performance of a notice, where it has one.
pub open spec fn place_of(opp: OpportunityView) -> PlaceOfPerformanceView {
    match opp.place_of_performance {
        Some(place) => place,
        None => PlaceOfPerformanceView { state: None, city: None, country: None, zip: None },
    }
}

/// A coded place, where there is one.
pub open spec fn coded(place: Option<PlaceValueView>) -> PlaceValueView {
    match place {
        Some(value) => value,
        None => PlaceValueView { code: None, name: None },
    }
}

/// The `resource_links` column: the links as one JSON text, empty where they
/// cannot be written as JSON, and no value where the notice has no list.
pub open spec fn links_column(links: Option<Seq<Seq<char>>>) -> Option<Seq<char>> {
    match links {
        None => None,
        Some(items) => Some(
            match json_text(items) {
                Some(text) => text,
                None => Seq::empty(),
            },
        ),
    }
}

/// The mapping from a notice as it comes over the wire to its row: wire path
/// on the right, column on the left. A notice without a natural key has no
/// row.
pub open spec fn row_of(opp: OpportunityView) -> Option<OpportunityRowView> {
    match opp.notice_id {
        None => None,
        Some(notice_id) => Some(
            OpportunityRowView {
                notice_id,
                title: opp.title,
                solicitation_number: opp.solicitation_number,
                department: opp.department,
                sub_tier: opp.sub_tier,
                office: opp.office,
                full_parent_path_name: opp.full_parent_path_name,
                organization_type: opp.organization_type,
                opp_type: opp.opp_type,
                base_type: opp.base_type,
                posted_date: opp.posted_date,
                response_deadline: opp.response_deadline,
                archive_date: opp.archive_date,
                naics_code: opp.naics_code,
                classification_code: opp.classification_code,
                set_aside: opp.set_aside,
                set_aside_description: opp.set_aside_description,
                description: opp.description,
                ui_link: opp.ui_link,
                active: opp.active,
                resource_links: links_column(opp.resource_links),
                award_amount: award_of(opp).amount,
                award_date: award_of(opp).date,
                award_number: award_of(opp).number,
                awardee_name: awardee_of(opp).name,
                awardee_duns: awardee_of(opp).duns,
                awardee_uei_sam: awardee_of(opp).uei_sam,
                pop_state_code: coded(place_of(opp).state).code,
                pop_state_name: coded(place_of(opp).state).name,
                pop_city_code: coded(place_of(opp).city).code,
                pop_city_name: coded(place_of(opp).city).name,
                pop_country_code: coded(place_of(opp).country).code,
                pop_country_name: coded(place_of(opp).country).name,
                pop_zip: place_of(opp).zip,
            },
        ),
    }
}

fn place_code(place: &Option<PlaceValue>) -> (code: Option<String>)
    ensures
        opt_text(code) == coded(opt_place_value(*place)).code,
{
    match place {
        Some(value) => copy_opt(&value.code),
        None => None,
    }
}

fn place_name(place: &Option<PlaceValue>) -> (name: Option<String>)
    ensures
        opt_text(name) == coded(opt_place_value(*place)).name,
{
    match place {
        Some(value) => copy_opt(&value.name),
        None => None,
    }
}

fn links_json(links: &Option<Vec<String>>) -> (column: Option<String>)
    ensures
        opt_text(column) == links_column(opt_texts(*links)),
{
    match links {
        None => None,
        Some(items) => Some(
            match write_json(items) {
                Ok(text) => text,
                Err(_) => String::new(),
            },
        ),
    }
}

/// Lays a notice out as its row. A notice without a natural key has none.
pub fn opportunity_row(opp: &Opportunity) -> (row: Option<OpportunityRow>)
    ensures
        opt_row(row) == row_of(opp@),
{
    let notice_id = match &opp.notice_id {
        None => {
            return None;
        },
        Some(notice_id) => notice_id.clone(),
    };
    let (award_amount, award_date, award_number, awardee_name, awardee_duns, awardee_uei_sam) =
        match &opp.award {
        Some(award) => {
            let (name, duns, uei_sam) = match &award.awardee {
                Some(awardee) => (
                    copy_opt(&awardee.name),
                    copy_opt(&awardee.duns),
                    copy_opt(&awardee.uei_sam),
                ),
                None => (None, None, None),
            };
            (
                copy_opt(&award.amount),
                copy_opt(&award.date),
                copy_opt(&award.number),
                name,
                duns,
                uei_sam,
            )
        },
        None => (None, None, None, None, None, None),
    };
    let (
        pop_state_code,
        pop_state_name,
        pop_city_code,
        pop_city_name,
        pop_country_code,
        pop_country_name,
        pop_zip,
    ) = match &opp.place_of_performance {
        Some(place) => (
            place_code(&place.state),
            place_name(&place.state),
            place_code(&place.city),
            place_name(&place.city),
            place_code(&place.country),
            place_name(&place.country),
            copy_opt(&place.zip),
        ),
        None => (None, None, None, None, None, None, None),
    };
    Some(
        OpportunityRow {
            notice_id,
            title: copy_opt(&opp.title),
            solicitation_number: copy_opt(&opp.solicitation_number),
            department: copy_opt(&opp.department),
            sub_tier: copy_opt(&opp.sub_tier),
            office: copy_opt(&opp.office),
            full_parent_path_name: copy_opt(&opp.full_parent_path_name),
            organization_type: copy_opt(&opp.organization_type),
            opp_type: copy_opt(&opp.opp_type),
            base_type: copy_opt(&opp.base_type),
            posted_date: copy_opt(&opp.posted_date),
            response_deadline: copy_opt(&opp.response_deadline),
            archive_date: copy_opt(&opp.archive_date),
            naics_code: copy_opt(&opp.naics_code),
            classification_code: copy_opt(&opp.classification_code),
            set_aside: copy_opt(&opp.set_aside),
            set_aside_description: copy_opt(&opp.set_aside_description),
            description: copy_opt(&opp.description),
            ui_link: copy_opt(&opp.ui_link),
            active: copy_opt(&opp.active),
            resource_links: links_json(&opp.resource_links),
            award_amount,
            award_date,
            award_number,
            awardee_name,
            awardee_duns,
            awardee_uei_sam,
            pop_state_code,
            pop_state_name,
            pop_city_code,
            pop_city_name,
            pop_country_code,
            pop_country_name,
            pop_zip,
        },
    )
}
/// One row of the `contacts` table. A contact belongs to one notice and has
/// no identity of its own.
#[derive(Debug, Clone)]
pub struct ContactRow {
    /// The natural key of the notice that the contact belongs to.
    pub notice_id: String,
    pub contact_type: Option<String>,
    pub full_name: Option<String>,
    pub email: Option<String>,
    pub phone: Option<String>,
    pub title: Option<String>,
}

/// What a [`ContactRow`] holds, as plain mathematical values.
pub struct ContactRowView {
    pub notice_id: Seq<char>,
    pub contact_type: Option<Seq<char>>,
    pub full_name: Option<Seq<char>>,
    pub email: Option<Seq<char>>,
    pub phone: Option<Seq<char>>,
    pub title: Option<Seq<char>>,
}

impl View for ContactRow {
    type V = ContactRowView;

    open spec fn view(&self) -> ContactRowView {
        ContactRowView {
            notice_id: self.notice_id@,
            contact_type: opt_text(self.contact_type),
            full_name: opt_text(self.full_name),
            email: opt_text(self.email),
            phone: opt_text(self.phone),
            title: opt_text(self.title),
        }
    }
}

/// The views of a list of contact rows, in order.
pub open spec fn contact_views(rows: Seq<ContactRow>) -> Seq<ContactRowView> {
    rows.map_values(|row: ContactRow| row@)
}

/// The row of one contact of the notice with the key `notice_id`.
pub open spec fn contact_row_of(notice_id: Seq<char>, contact: PointOfContactView) -> ContactRowView {
    ContactRowView {
        notice_id,
        contact_type: contact.contact_type,
        full_name: contact.full_name,
        email: contact.email,
        phone: contact.phone,
        title: contact.title,
    }
}

/// The contact rows of a notice: one for each of its contacts, in their
/// order, and none for a notice without a natural key or without a contact
/// list.
pub open spec fn contacts_of(opp: OpportunityView) -> Seq<ContactRowView> {
    match (opp.notice_id, opp.point_of_contact) {
        (Some(notice_id), Some(contacts)) => contacts.map_values(
            |contact: PointOfContactView| contact_row_of(notice_id, contact),
        ),
        _ => Seq::empty(),
    }
}

/// Lays the contacts of a notice out as rows.
pub fn contact_rows(opp: &Opportunity) -> (rows: Vec<ContactRow>)
    ensures
        contact_views(rows@) == contacts_of(opp@),
{
    let mut rows: Vec<ContactRow> = Vec::new();
    if let Some(notice_id) = &opp.notice_id {
        if let Some(contacts) = &opp.point_of_contact {
            let mut i: usize = 0;
            while i < contacts.len()
                invariant
                    0 <= i <= contacts.len(),
                    rows@.len() == i,
                    forall|j: int|
                        0 <= j < i ==> (#[trigger] rows@[j])@ == contact_row_of(
                            notice_id@,
                            contacts@[j]@,
                        ),
                decreases contacts.len() - i,
            {
                let contact = &contacts[i];
                rows.push(
                    ContactRow {
                        notice_id: notice_id.clone(),
                        contact_type: copy_opt(&contact.contact_type),
                        full_name: copy_opt(&contact.full_name),
                        email: copy_opt(&contact.email),
                        phone: copy_opt(&contact.phone),
                        title: copy_opt(&contact.title),
                    },
                );
                i += 1;
            }
        }
    }
    proof {
        assert(contact_views(rows@) =~= contacts_of(opp@));
    }
    rows
}

/// What is recorded of one execution of a window fetch.
#[derive(Debug, Clone)]
pub struct CallLogEntry {
    /// `incremental` or `backfill`.
    pub context: String,
    pub posted_from: Option<String>,
    pub posted_to: Option<String>,
    pub api_calls: i64,
    pub records_fetched: i64,
    pub rate_limited: bool,
    pub error_message: Option<String>,
}

/// What a [`CallLogEntry`] holds, as plain mathematical values.
pub struct CallLogEntryView {
    pub context: Seq<char>,
    pub posted_from: Option<Seq<char>>,
    pub posted_to: Option<Seq<char>>,
    pub api_calls: i64,
    pub records_fetched: i64,
    pub rate_limited: bool,
    pub error_message: Option<Seq<char>>,
}

impl View for CallLogEntry {
    type V = CallLogEntryView;

    open spec fn view(&self) -> CallLogEntryView {
        CallLogEntryView {
            context: self.context@,
            posted_from: opt_text(self.posted_from),
            posted_to: opt_text(self.posted_to),
            api_calls: self.api_calls,
            records_fetched: self.records_fetched,
            rate_limited: self.rate_limited,
            error_message: opt_text(self.error_message),
        }
    }
}

/// The call log holds at most this many rows: the most recent ones.
pub const CALL_LOG_CAPACITY: usize = 200;

/// One write to the store.
#[derive(Debug, Clone)]
pub enum Statement {
    /// Insert the row, or, where a row with its key exists, overwrite every
    /// column of that row.
    UpsertOpportunity(OpportunityRow),
    /// Delete every contact of the notice with this key.
    DeleteContacts { notice_id: String },
    /// Insert one contact.
    InsertContact(ContactRow),
    /// Insert the value under the key, or replace the value that is there.
    SetSyncState { key: String, value: String },
    /// Append one row to the call log.
    InsertCallLog(CallLogEntry),
    /// Delete all rows of the call log but the `keep` most recent.
    PruneCallLog { keep: usize },
}

/// What a [`Statement`] holds, as plain mathematical values.
pub enum StatementView {
    UpsertOpportunity(OpportunityRowView),
    DeleteContacts { notice_id: Seq<char> },
    InsertContact(ContactRowView),
    SetSyncState { key: Seq<char>, value: Seq<char> },
    InsertCallLog(CallLogEntryView),
    PruneCallLog { keep: usize },
}

impl View for Statement {
    type V = StatementView;

    open spec fn view(&self) -> StatementView {
        match *self {
            Statement::UpsertOpportunity(row) => StatementView::UpsertOpportunity(row@),
            Statement::DeleteContacts { notice_id } => StatementView::DeleteContacts {
                notice_id: notice_id@,
            },
            Statement::InsertContact(row) => StatementView::InsertContact(row@),
            Statement::SetSyncState { key, value } => StatementView::SetSyncState {
                key: key@,
                value: value@,
            },
            Statement::InsertCallLog(entry) => StatementView::InsertCallLog(entry@),
            Statement::PruneCallLog { keep } => StatementView::PruneCallLog { keep },
        }
    }
}

/// The views of a list of statements, in order.
pub open spec fn statement_views(statements: Seq<Statement>) -> Seq<StatementView> {
    statements.map_values(|statement: Statement| statement@)
}

/// The statements that insert the given contacts, in order.
pub open spec fn contact_inserts(contacts: Seq<ContactRowView>) -> Seq<StatementView> {
    contacts.map_values(|contact: ContactRowView| StatementView::InsertContact(contact))
}

/// The statements that store one notice, to be executed in this order as one
/// transaction: the row is upserted by its key, every contact stored for the
/// key is deleted, and the contacts of the notice are inserted as they come.
/// A notice without a natural key is stored by no statement.
pub open spec fn upsert_plan(opp: OpportunityView) -> Seq<StatementView> {
    match row_of(opp) {
        None => Seq::empty(),
        Some(row) => seq![
            StatementView::UpsertOpportunity(row),
            StatementView::DeleteContacts { notice_id: row.notice_id },
        ] + contact_inserts(contacts_of(opp)),
    }
}

/// The statements that store one notice. See [`upsert_plan`].
pub fn upsert_statements(opp: &Opportunity) -> (statements: Vec<Statement>)
    ensures
        statement_views(statements@) == upsert_plan(opp@),
{
    let mut statements: Vec<Statement> = Vec::new();
    match opportunity_row(opp) {
        None => {
            proof {
                assert(statement_views(statements@) =~= upsert_plan(opp@));
            }
        },
        Some(row) => {
            let notice_id = row.notice_id.clone();
            let ghost key = row.notice_id@;
            let ghost head = seq![
                StatementView::UpsertOpportunity(row@),
                StatementView::DeleteContacts { notice_id: key },
            ];
            statements.push(Statement::UpsertOpportunity(row));
            statements.push(Statement::DeleteContacts { notice_id });
            let mut contacts = contact_rows(opp);
            let ghost all = contact_views(contacts@);
            proof {
                assert(statement_views(statements@) =~= head);
                assert(all.skip(0) == all);
                assert(all.take(0) =~= Seq::empty());
                assert(head + contact_inserts(all.take(0)) =~= head);
            }
            let ghost mut moved: int = 0;
            while contacts.len() > 0
                invariant
                    0 <= moved <= all.len(),
                    contact_views(contacts@) == all.skip(moved),
                    statement_views(statements@) == head + contact_inserts(all.take(moved)),
                decreases contacts.len(),
            {
                let ghost waiting = contacts@;
                let contact = contacts.remove(0);
                let ghost written = statement_views(statements@);
                proof {
                    assert(contact_views(waiting).len() == waiting.len());
                    assert(all.skip(moved).len() == all.len() - moved);
                    assert(contact@ == contact_views(waiting)[0]);
                    assert(all.skip(moved)[0] == all[moved]);
                    assert(contact@ == all[moved]);
                    assert forall|j: int| 0 <= j < contacts@.len() implies contact_views(
                        contacts@,
                    )[j] == all.skip(moved + 1)[j] by {
                        assert(contacts@[j] == waiting[j + 1]);
                        assert(contact_views(waiting)[j + 1] == all.skip(moved)[j + 1]);
                        assert(all.skip(moved)[j + 1] == all[moved + j + 1]);
                        assert(all.skip(moved + 1)[j] == all[moved + 1 + j]);
                    }
                    assert(contact_views(contacts@) =~= all.skip(moved + 1));
                    assert(all.take(moved + 1) =~= all.take(moved).push(all[moved]));
                    assert(contact_inserts(all.take(moved + 1)) =~= contact_inserts(
                        all.take(moved),
                    ).push(StatementView::InsertContact(all[moved])));
                    assert((head + contact_inserts(all.take(moved))).push(
                        StatementView::InsertContact(contact@),
                    ) =~= head + contact_inserts(all.take(moved + 1)));
                }
                statements.push(Statement::InsertContact(contact));
                proof {
                    assert(statement_views(statements@) =~= written.push(
                        StatementView::InsertContact(contact@),
                    ));
                    moved = moved + 1;
                }
            }
            proof {
                assert(all.take(moved) == all);
            }
        },
    }
    statements
}

/// One entry of the `sync_state` table.
#[derive(Debug, Clone)]
pub struct StateRow {
    pub key: String,
    pub value: String,
}

/// What a [`StateRow`] holds, as plain mathematical values.
pub struct StateRowView {
    pub key: Seq<char>,
    pub value: Seq<char>,
}

impl View for StateRow {
    type V = StateRowView;

    open spec fn view(&self) -> StateRowView {
        StateRowView { key: self.key@, value: self.value@ }
    }
}

/// One row of the `api_call_log` table.
#[derive(Debug, Clone)]
pub struct ApiCallLogRow {
    /// Assigned by the store, growing with every row.
    pub id: i64,
    /// Assigned by the store.
    pub timestamp: String,
    pub context: String,
    pub posted_from: Option<String>,
    pub posted_to: Option<String>,
    pub api_calls: i64,
    pub records_fetched: i64,
    pub rate_limited: bool,
    pub error_message: Option<String>,
}

/// What an [`ApiCallLogRow`] holds, as plain mathematical values.
pub struct ApiCallLogRowView {
    pub id: i64,
    pub timestamp: Seq<char>,
    pub context: Seq<char>,
    pub posted_from: Option<Seq<char>>,
    pub posted_to: Option<Seq<char>>,
    pub api_calls: i64,
    pub records_fetched: i64,
    pub rate_limited: bool,
    pub error_message: Option<Seq<char>>,
}

impl View for ApiCallLogRow {
    type V = ApiCallLogRowView;

    open spec fn view(&self) -> ApiCallLogRowView {
        ApiCallLogRowView {
            id: self.id,
            timestamp: self.timestamp@,
            context: self.context@,
            posted_from: opt_text(self.posted_from),
            posted_to: opt_text(self.posted_to),
            api_calls: self.api_calls,
            records_fetched: self.records_fetched,
            rate_limited: self.rate_limited,
            error_message: opt_text(self.error_message),
        }
    }
}

/// The views of a list of call log rows, in order.
pub open spec fn log_views(rows: Seq<ApiCallLogRow>) -> Seq<ApiCallLogRowView> {
    rows.map_values(|row: ApiCallLogRow| row@)
}

/// A row of the `opportunities` table as the store holds it: the row, and the
/// two times that the store itself assigns to it.
#[derive(Debug, Clone)]
pub struct StoredOpportunity {
    pub row: OpportunityRow,
    /// When the notice was first stored.
    pub created_at: String,
    /// When the notice was last stored.
    pub modified_at: String,
}

/// What a [`StoredOpportunity`] holds, as plain mathematical values.
pub struct StoredOpportunityView {
    pub row: OpportunityRowView,
    pub created_at: Seq<char>,
    pub modified_at: Seq<char>,
}

impl View for StoredOpportunity {
    type V = StoredOpportunityView;

    open spec fn view(&self) -> StoredOpportunityView {
        StoredOpportunityView {
            row: self.row@,
            created_at: self.created_at@,
            modified_at: self.modified_at@,
        }
    }
}

/// The tables of the store, as sequences of rows in the order of insertion.
pub struct DatabaseView {
    pub opportunities: Seq<StoredOpportunityView>,
    pub contacts: Seq<ContactRowView>,
    pub sync_state: Seq<StateRowView>,
    pub call_log: Seq<ApiCallLogRowView>,
    /// The identifier that the next row of the call log gets.
    pub next_log_id: i64,
}

/// Some row has the key.
pub open spec fn has_row(rows: Seq<StoredOpportunityView>, key: Seq<char>) -> bool {
    exists|i: int| 0 <= i < rows.len() && (#[trigger] rows[i]).row.notice_id == key
}

/// No two rows have the same key.
pub open spec fn unique_keys(rows: Seq<StoredOpportunityView>) -> bool {
    forall|i: int, j: int|
        0 <= i < j < rows.len() ==> (#[trigger] rows[i]).row.notice_id != (
        #[trigger] rows[j]).row.notice_id
}

/// The rows after an upsert at the time `now`: where the key is there, every
/// column of the row that has it is overwritten in its place and the row is
/// marked as modified now, its time of creation being left as it is; where the
/// key is not there, the row is added as created and modified now.
pub open spec fn put_row(
    rows: Seq<StoredOpportunityView>,
    row: OpportunityRowView,
    now: Seq<char>,
) -> Seq<StoredOpportunityView> {
    if has_row(rows, row.notice_id) {
        rows.map_values(
            |old: StoredOpportunityView|
                if old.row.notice_id == row.notice_id {
                    StoredOpportunityView { row, created_at: old.created_at, modified_at: now }
                } else {
                    old
                },
        )
    } else {
        rows.push(StoredOpportunityView { row, created_at: now, modified_at: now })
    }
}

/// The contacts that do not belong to the notice with the key, in order.
pub open spec fn without_contacts(contacts: Seq<ContactRowView>, key: Seq<char>) -> Seq<
    ContactRowView,
>
    decreases contacts.len(),
{
    if contacts.len() == 0 {
        contacts
    } else if contacts[0].notice_id == key {
        without_contacts(contacts.drop_first(), key)
    } else {
        seq![contacts[0]] + without_contacts(contacts.drop_first(), key)
    }
}

/// The contacts that belong to the notice with the key, in order.
pub open spec fn contacts_for(contacts: Seq<ContactRowView>, key: Seq<char>) -> Seq<
    ContactRowView,
>
    decreases contacts.len(),
{
    if contacts.len() == 0 {
        contacts
    } else if contacts[0].notice_id == key {
        seq![contacts[0]] + contacts_for(contacts.drop_first(), key)
    } else {
        contacts_for(contacts.drop_first(), key)
    }
}

/// Some entry has the key.
pub open spec fn has_state(entries: Seq<StateRowView>, key: Seq<char>) -> bool {
    exists|i: int| 0 <= i < entries.len() && (#[trigger] entries[i]).key == key
}

/// The entries after a value is set: where the key is there, its value is
/// replaced; where it is not, the entry is added.
pub open spec fn put_state(entries: Seq<StateRowView>, key: Seq<char>, value: Seq<char>) -> Seq<
    StateRowView,
> {
    if has_state(entries, key) {
        entries.map_values(
            |old: StateRowView|
                if old.key == key {
                    StateRowView { key, value }
                } else {
                    old
                },
        )
    } else {
        entries.push(StateRowView { key, value })
    }
}

/// The value stored under the key.
pub open spec fn state_value(entries: Seq<StateRowView>, key: Seq<char>) -> Option<Seq<char>>
    decreases entries.len(),
{
    if entries.len() == 0 {
        None
    } else if entries[0].key == key {
        Some(entries[0].value)
    } else {
        state_value(entries.drop_first(), key)
    }
}

/// The row that the call log gets for an entry.
pub open spec fn log_row(id: i64, timestamp: Seq<char>, entry: CallLogEntryView) -> ApiCallLogRowView {
    ApiCallLogRowView {
        id,
        timestamp,
        context: entry.context,
        posted_from: entry.posted_from,
        posted_to: entry.posted_to,
        api_calls: entry.api_calls,
        records_fetched: entry.records_fetched,
        rate_limited: entry.rate_limited,
        error_message: entry.error_message,
    }
}

/// The `keep` most recent rows of the call log.
pub open spec fn pruned(log: Seq<ApiCallLogRowView>, keep: nat) -> Seq<ApiCallLogRowView> {
    if log.len() > keep {
        log.skip(log.len() - keep)
    } else {
        log
    }
}

/// The `limit` most recent rows of the call log, the most recent first.
pub open spec fn recent(log: Seq<ApiCallLogRowView>, limit: nat) -> Seq<ApiCallLogRowView> {
    Seq::new(
        if limit < log.len() {
            limit
        } else {
            log.len()
        },
        |i: int| log[log.len() - 1 - i],
    )
}

/// The least posting date among the rows that have one, as texts compare.
pub open spec fn earliest_posted(rows: Seq<StoredOpportunityView>) -> Option<Seq<char>>
    decreases rows.len(),
{
    if rows.len() == 0 {
        None
    } else {
        let before = earliest_posted(rows.drop_last());
        match (rows.last().row.posted_date, before) {
            (None, _) => before,
            (Some(date), None) => Some(date),
            (Some(date), Some(least)) => if text_less(date, least) {
                Some(date)
            } else {
                Some(least)
            },
        }
    }
}

impl DatabaseView {
    /// What holds of the tables at all times: a key names one notice, every
    /// contact belongs to a notice that is there, and the rows of the call
    /// log have growing identifiers below the next one.
    pub open spec fn wf(self) -> bool {
        &&& unique_keys(self.opportunities)
        &&& forall|i: int|
            0 <= i < self.contacts.len() ==> has_row(
                self.opportunities,
                (#[trigger] self.contacts[i]).notice_id,
            )
        &&& forall|i: int|
            0 <= i < self.call_log.len() ==> (#[trigger] self.call_log[i]).id < self.next_log_id
        &&& forall|i: int, j: int|
            0 <= i < j < self.call_log.len() ==> (#[trigger] self.call_log[i]).id < (
            #[trigger] self.call_log[j]).id
    }

    /// Whether the store takes the statement. It refuses a contact of a notice
    /// that is not there, and a row for the call log once the identifiers are
    /// used up.
    pub open spec fn accepts(self, statement: StatementView) -> bool {
        match statement {
            StatementView::InsertContact(contact) => has_row(
                self.opportunities,
                contact.notice_id,
            ),
            StatementView::InsertCallLog(entry) => self.next_log_id < i64::MAX,
            _ => true,
        }
    }

    /// The tables after the statement. A statement that is refused changes
    /// nothing. `timestamp` is the time that the store assigns to what it
    /// inserts.
    pub open spec fn applied(self, statement: StatementView, timestamp: Seq<char>) -> DatabaseView {
        if !self.accepts(statement) {
            self
        } else {
            match statement {
                StatementView::UpsertOpportunity(row) => DatabaseView {
                    opportunities: put_row(self.opportunities, row, timestamp),
                    ..self
                },
                StatementView::DeleteContacts { notice_id } => DatabaseView {
                    contacts: without_contacts(self.contacts, notice_id),
                    ..self
                },
                StatementView::InsertContact(contact) => DatabaseView {
                    contacts: self.contacts.push(contact),
                    ..self
                },
                StatementView::SetSyncState { key, value } => DatabaseView {
                    sync_state: put_state(self.sync_state, key, value),
                    ..self
                },
                StatementView::InsertCallLog(entry) => DatabaseView {
                    call_log: self.call_log.push(log_row(self.next_log_id, timestamp, entry)),
                    next_log_id: (self.next_log_id + 1) as i64,
                    ..self
                },
                StatementView::PruneCallLog { keep } => DatabaseView {
                    call_log: pruned(self.call_log, keep as nat),
                    ..self
                },
            }
        }
    }

    /// The tables after the statements, applied in order.
    pub open spec fn applied_all(
        self,
        statements: Seq<StatementView>,
        timestamp: Seq<char>,
    ) -> DatabaseView
        decreases statements.len(),
    {
        if statements.len() == 0 {
            self
        } else {
            self.applied(statements[0], timestamp).applied_all(
                statements.drop_first(),
                timestamp,
            )
        }
    }

    /// Whether the store takes every one of the statements, applied in order.
    pub open spec fn accepts_all(self, statements: Seq<StatementView>, timestamp: Seq<char>) -> bool
        decreases statements.len(),
    {
        if statements.len() == 0 {
            true
        } else {
            self.accepts(statements[0]) && self.applied(statements[0], timestamp).accepts_all(
                statements.drop_first(),
                timestamp,
            )
        }
    }
}

/// Why the store refused a write.
#[derive(Debug, Clone, Copy, PartialEq, Eq, Structural)]
pub enum StoreError {
    /// A contact was to be inserted for a notice that is not stored.
    NoSuchOpportunity,
    /// The call log has used up its identifiers.
    LogFull,
    /// A count does not fit the integer column that is to hold it.
    CountOutOfRange,
}

/// The views of a list of stored rows, in order.
pub open spec fn row_views(rows: Seq<StoredOpportunity>) -> Seq<StoredOpportunityView> {
    rows.map_values(|row: StoredOpportunity| row@)
}

/// The views of a list of state entries, in order.
pub open spec fn state_views(rows: Seq<StateRow>) -> Seq<StateRowView> {
    rows.map_values(|row: StateRow| row@)
}

/// The tables of the store, held in memory, with the meaning of every
/// statement on them. A durable store that executes the same statements holds
/// the same rows.
#[derive(Debug, Clone)]
pub struct Database {
    opportunities: Vec<StoredOpportunity>,
    contacts: Vec<ContactRow>,
    sync_state: Vec<StateRow>,
    call_log: Vec<ApiCallLogRow>,
    next_log_id: i64,
}

impl View for Database {
    type V = DatabaseView;

    closed spec fn view(&self) -> DatabaseView {
        DatabaseView {
            opportunities: row_views(self.opportunities@),
            contacts: contact_views(self.contacts@),
            sync_state: state_views(self.sync_state@),
            call_log: log_views(self.call_log@),
            next_log_id: self.next_log_id,
        }
    }
}

impl Database {
    /// A store with empty tables.
    pub fn open_in_memory() -> (db: Database)
        ensures
            db@.wf(),
            db@ == (DatabaseView {
                opportunities: Seq::empty(),
                contacts: Seq::empty(),
                sync_state: Seq::empty(),
                call_log: Seq::empty(),
                next_log_id: 1,
            }),
    {
        let db = Database {
            opportunities: Vec::new(),
            contacts: Vec::new(),
            sync_state: Vec::new(),
            call_log: Vec::new(),
            next_log_id: 1,
        };
        proof {
            assert(db@.opportunities =~= Seq::empty());
            assert(db@.contacts =~= Seq::empty());
            assert(db@.sync_state =~= Seq::empty());
            assert(db@.call_log =~= Seq::empty());
        }
        db
    }

    /// The rows of the `opportunities` table.
    pub fn opportunities(&self) -> (rows: &Vec<StoredOpportunity>)
        ensures
            row_views(rows@) == self@.opportunities,
    {
        &self.opportunities
    }

    /// The rows of the `contacts` table.
    pub fn contacts(&self) -> (rows: &Vec<ContactRow>)
        ensures
            contact_views(rows@) == self@.contacts,
    {
        &self.contacts
    }

    /// The rows of the `api_call_log` table, the oldest first.
    pub fn call_log(&self) -> (rows: &Vec<ApiCallLogRow>)
        ensures
            log_views(rows@) == self@.call_log,
    {
        &self.call_log
    }

    fn find_row(&self, key: &String) -> (found: Option<usize>)
        ensures
            match found {
                Some(i) => i < self@.opportunities.len()
                    && self@.opportunities[i as int].row.notice_id == key@,
                None => !has_row(self@.opportunities, key@),
            },
    {
        let mut i: usize = 0;
        while i < self.opportunities.len()
            invariant
                0 <= i <= self.opportunities.len(),
                forall|j: int|
                    0 <= j < i ==> (#[trigger] self@.opportunities[j]).row.notice_id != key@,
            decreases self.opportunities.len() - i,
        {
            if same_string(&self.opportunities[i].row.notice_id, key) {
                return Some(i);
            }
            i += 1;
        }
        None
    }

    fn upsert_row(&mut self, row: OpportunityRow, timestamp: &str)
        requires
            old(self)@.wf(),
        ensures
            final(self)@.wf(),
            final(self)@ == old(self)@.applied(
                StatementView::UpsertOpportunity(row@),
                timestamp@,
            ),
    {
        let ghost before = self@;
        let ghost key = row@.notice_id;
        let ghost put = put_row(before.opportunities, row@, timestamp@);
        match self.find_row(&row.notice_id) {
            Some(i) => {
                let created_at = self.opportunities[i].created_at.clone();
                self.opportunities[i] = StoredOpportunity {
                    row,
                    created_at,
                    modified_at: String::from_str(timestamp),
                };
                proof {
                    assert(before.opportunities[i as int].row.notice_id == key);
                    assert(has_row(before.opportunities, key));
                    assert(self@.opportunities =~= put) by {
                        assert forall|j: int| 0 <= j < before.opportunities.len() implies (
                        #[trigger] self@.opportunities[j]) == put[j] by {
                            if j != i {
                                assert(before.opportunities[j].row.notice_id
                                    != before.opportunities[i as int].row.notice_id);
                            }
                        }
                    }
                }
            },
            None => {
                self.opportunities.push(
                    StoredOpportunity {
                        row,
                        created_at: String::from_str(timestamp),
                        modified_at: String::from_str(timestamp),
                    },
                );
                proof {
                    assert(self@.opportunities =~= put);
                }
            },
        }
        proof {
            assert(self@.contacts == before.contacts);
            assert forall|c: int| 0 <= c < self@.contacts.len() implies has_row(
                self@.opportunities,
                (#[trigger] self@.contacts[c]).notice_id,
            ) by {
                let wanted = before.contacts[c].notice_id;
                let w = choose|w: int|
                    0 <= w < before.opportunities.len() && (
                    #[trigger] before.opportunities[w]).row.notice_id == wanted;
                assert(self@.opportunities[w].row.notice_id == wanted);
            }
        }
    }

    fn delete_contacts(&mut self, key: &String)
        requires
            old(self)@.wf(),
        ensures
            final(self)@.wf(),
            final(self)@ == old(self)@.applied(
                StatementView::DeleteContacts { notice_id: key@ },
                Seq::empty(),
            ),
    {
        let ghost before = self@;
        let mut i: usize = self.contacts.len();
        proof {
            assert(before.contacts.skip(i as int) =~= Seq::empty());
            assert(before.contacts.take(i as int) =~= before.contacts);
            assert(before.contacts.take(i as int) + without_contacts(
                before.contacts.skip(i as int),
                key@,
            ) =~= before.contacts);
        }
        while i > 0
            invariant
                0 <= i <= before.contacts.len(),
                i <= self.contacts.len(),
                self@.contacts == before.contacts.take(i as int) + without_contacts(
                    before.contacts.skip(i as int),
                    key@,
                ),
                self@.opportunities == before.opportunities,
                self@.sync_state == before.sync_state,
                self@.call_log == before.call_log,
                self@.next_log_id == before.next_log_id,
                before.wf(),
                forall|c: int|
                    0 <= c < self@.contacts.len() ==> has_row(
                        before.opportunities,
                        (#[trigger] self@.contacts[c]).notice_id,
                    ),
            decreases i,
        {
            i -= 1;
            let ghost now = self@.contacts;
            let ghost tail = before.contacts.skip(i as int);
            proof {
                assert(tail[0] == before.contacts[i as int]);
                assert(tail.drop_first() =~= before.contacts.skip(i + 1));
                assert(now[i as int] == before.contacts.take(i + 1)[i as int]);
            }
            if same_string(&self.contacts[i].notice_id, key) {
                self.contacts.remove(i);
                proof {
                    assert(self@.contacts =~= now.remove(i as int));
                    assert(now.remove(i as int) =~= before.contacts.take(i as int)
                        + without_contacts(before.contacts.skip(i + 1), key@));
                    assert forall|c: int| 0 <= c < self@.contacts.len() implies has_row(
                        before.opportunities,
                        (#[trigger] self@.contacts[c]).notice_id,
                    ) by {
                        if c < i {
                            assert(self@.contacts[c] == now[c]);
                        } else {
                            assert(self@.contacts[c] == now[c + 1]);
                        }
                    }
                }
            } else {
                proof {
                    assert(now =~= before.contacts.take(i as int) + (seq![tail[0]]
                        + without_contacts(before.contacts.skip(i + 1), key@)));
                }
            }
        }
        proof {
            assert(before.contacts.skip(0) =~= before.contacts);
            assert(before.contacts.take(0) + without_contacts(before.contacts, key@)
                =~= without_contacts(before.contacts, key@));
        }
    }

    fn insert_contact(&mut self, contact: ContactRow) -> (done: Result<(), StoreError>)
        requires
            old(self)@.wf(),
        ensures
            final(self)@.wf(),
            final(self)@ == old(self)@.applied(
                StatementView::InsertContact(contact@),
                Seq::empty(),
            ),
            done is Ok <==> old(self)@.accepts(StatementView::InsertContact(contact@)),
            done is Err ==> done == Err::<(), StoreError>(StoreError::NoSuchOpportunity),
    {
        let ghost before = self@;
        match self.find_row(&contact.notice_id) {
            None => Err(StoreError::NoSuchOpportunity),
            Some(i) => {
                proof {
                    assert(before.opportunities[i as int].row.notice_id == contact@.notice_id);
                }
                self.contacts.push(contact);
                proof {
                    assert(self@.contacts =~= before.contacts.push(contact@));
                }
                Ok(())
            },
        }
    }

    fn find_state(&self, key: &String) -> (found: Option<usize>)
        ensures
            match found {
                Some(i) => i < self@.sync_state.len() && self@.sync_state[i as int].key == key@
                    && forall|j: int| 0 <= j < i ==> (#[trigger] self@.sync_state[j]).key != key@,
                None => !has_state(self@.sync_state, key@),
            },
    {
        let mut i: usize = 0;
        while i < self.sync_state.len()
            invariant
                0 <= i <= self.sync_state.len(),
                forall|j: int| 0 <= j < i ==> (#[trigger] self@.sync_state[j]).key != key@,
            decreases self.sync_state.len() - i,
        {
            if same_string(&self.sync_state[i].key, key) {
                return Some(i);
            }
            i += 1;
        }
        None
    }

    fn put_state_row(&mut self, key: String, value: String)
        requires
            old(self)@.wf(),
        ensures
            final(self)@.wf(),
            final(self)@ == old(self)@.applied(
                StatementView::SetSyncState { key: key@, value: value@ },
                Seq::empty(),
            ),
    {
        let ghost before = self@;
        let ghost wanted = key@;
        let ghost entry = StateRowView { key: key@, value: value@ };
        match self.find_state(&key) {
            None => {
                self.sync_state.push(StateRow { key, value });
                proof {
                    assert(self@.sync_state =~= put_state(before.sync_state, wanted, entry.value));
                }
            },
            Some(first) => {
                proof {
                    assert(before.sync_state[first as int].key == wanted);
                    assert(has_state(before.sync_state, wanted));
                }
                let mut i: usize = 0;
                while i < self.sync_state.len()
                    invariant
                        0 <= i <= self.sync_state.len(),
                        self@.sync_state.len() == before.sync_state.len(),
                        key@ == wanted,
                        value@ == entry.value,
                        entry.key == wanted,
                        forall|j: int|
                            0 <= j < i ==> (#[trigger] self@.sync_state[j]) == (if before.sync_state[j].key
                                == wanted {
                                entry
                            } else {
                                before.sync_state[j]
                            }),
                        forall|j: int|
                            i <= j < self@.sync_state.len() ==> (#[trigger] self@.sync_state[j])
                                == before.sync_state[j],
                        self@.opportunities == before.opportunities,
                        self@.contacts == before.contacts,
                        self@.call_log == before.call_log,
                        self@.next_log_id == before.next_log_id,
                    decreases self.sync_state.len() - i,
                {
                    let ghost now = self@.sync_state;
                    proof {
                        assert(now[i as int] == before.sync_state[i as int]);
                        assert(now[i as int].key == self.sync_state@[i as int].key@);
                    }
                    if same_string(&self.sync_state[i].key, &key) {
                        let fresh = StateRow { key: key.clone(), value: value.clone() };
                        proof {
                            assert(fresh@ == entry);
                        }
                        self.sync_state[i] = fresh;
                        proof {
                            assert(self@.sync_state =~= now.update(i as int, entry));
                        }
                    }
                    i += 1;
                }
                proof {
                    assert(self@.sync_state =~= put_state(before.sync_state, wanted, entry.value));
                }
            },
        }
    }
}

/// The statements that record one execution of a window fetch, to be executed
/// in this order as one transaction: the entry is appended, and the call log
/// is cut down to its [`CALL_LOG_CAPACITY`] most recent rows.
pub open spec fn log_plan(entry: CallLogEntryView) -> Seq<StatementView> {
    seq![
        StatementView::InsertCallLog(entry),
        StatementView::PruneCallLog { keep: CALL_LOG_CAPACITY },
    ]
}

fn own_opt(value: Option<&str>) -> (owned: Option<String>)
    ensures
        opt_text(owned) == opt_str(value),
{
    match value {
        Some(text) => Some(String::from_str(text)),
        None => None,
    }
}

/// The entry that is recorded of one execution of a window fetch.
pub open spec fn entry_of(
    context: Seq<char>,
    posted_from: Option<Seq<char>>,
    posted_to: Option<Seq<char>>,
    api_calls: u32,
    records_fetched: usize,
    rate_limited: bool,
    error_message: Option<Seq<char>>,
) -> CallLogEntryView {
    CallLogEntryView {
        context,
        posted_from,
        posted_to,
        api_calls: api_calls as i64,
        records_fetched: records_fetched as i64,
        rate_limited,
        error_message,
    }
}

/// The entry that is recorded of one execution of a window fetch, and
/// `CountOutOfRange` exactly where the number of records does not fit the
/// column that holds it.
pub fn call_log_entry(
    context: &str,
    posted_from: Option<&str>,
    posted_to: Option<&str>,
    api_calls: u32,
    records_fetched: usize,
    rate_limited: bool,
    error_message: Option<&str>,
) -> (entry: Result<CallLogEntry, StoreError>)
    ensures
        match entry {
            Ok(made) => records_fetched <= i64::MAX && made@ == entry_of(
                context@,
                opt_str(posted_from),
                opt_str(posted_to),
                api_calls,
                records_fetched,
                rate_limited,
                opt_str(error_message),
            ),
            Err(error) => records_fetched > i64::MAX && error == StoreError::CountOutOfRange,
        },
{
    if records_fetched as u64 > 0x7fff_ffff_ffff_ffffu64 {
        return Err(StoreError::CountOutOfRange);
    }
    Ok(
        CallLogEntry {
            context: String::from_str(context),
            posted_from: own_opt(posted_from),
            posted_to: own_opt(posted_to),
            api_calls: api_calls as i64,
            records_fetched: records_fetched as i64,
            rate_limited,
            error_message: own_opt(error_message),
        },
    )
}

/// The statements that record one execution of a window fetch. See
/// [`log_plan`].
pub fn log_statements(entry: CallLogEntry) -> (statements: Vec<Statement>)
    ensures
        statement_views(statements@) == log_plan(entry@),
{
    let mut statements: Vec<Statement> = Vec::new();
    statements.push(Statement::InsertCallLog(entry));
    statements.push(Statement::PruneCallLog { keep: CALL_LOG_CAPACITY });
    proof {
        assert(statement_views(statements@) =~= log_plan(entry@));
    }
    statements
}

fn copy_log_row(row: &ApiCallLogRow) -> (copy: ApiCallLogRow)
    ensures
        copy@ == row@,
{
    ApiCallLogRow {
        id: row.id,
        timestamp: row.timestamp.clone(),
        context: row.context.clone(),
        posted_from: copy_opt(&row.posted_from),
        posted_to: copy_opt(&row.posted_to),
        api_calls: row.api_calls,
        records_fetched: row.records_fetched,
        rate_limited: row.rate_limited,
        error_message: copy_opt(&row.error_message),
    }
}

impl Database {
    fn insert_log(&mut self, entry: CallLogEntry, timestamp: &str) -> (done: Result<
        (),
        StoreError,
    >)
        requires
            old(self)@.wf(),
        ensures
            final(self)@.wf(),
            final(self)@ == old(self)@.applied(StatementView::InsertCallLog(entry@), timestamp@),
            done is Ok <==> old(self)@.accepts(StatementView::InsertCallLog(entry@)),
            done is Err ==> done == Err::<(), StoreError>(StoreError::LogFull),
    {
        let ghost before = self@;
        if self.next_log_id == i64::MAX {
            return Err(StoreError::LogFull);
        }
        let row = ApiCallLogRow {
            id: self.next_log_id,
            timestamp: String::from_str(timestamp),
            context: entry.context,
            posted_from: entry.posted_from,
            posted_to: entry.posted_to,
            api_calls: entry.api_calls,
            records_fetched: entry.records_fetched,
            rate_limited: entry.rate_limited,
            error_message: entry.error_message,
        };
        proof {
            assert(row@ == log_row(before.next_log_id, timestamp@, entry@));
        }
        self.call_log.push(row);
        self.next_log_id = self.next_log_id + 1;
        proof {
            assert(self@.call_log =~= before.call_log.push(
                log_row(before.next_log_id, timestamp@, entry@),
            ));
        }
        Ok(())
    }

    fn prune_log(&mut self, keep: usize)
        requires
            old(self)@.wf(),
        ensures
            final(self)@.wf(),
            final(self)@ == old(self)@.applied(
                StatementView::PruneCallLog { keep },
                Seq::empty(),
            ),
    {
        let ghost before = self@;
        proof {
            assert(before.call_log.skip(0) =~= before.call_log);
        }
        while self.call_log.len() > keep
            invariant
                self@.call_log.len() <= before.call_log.len(),
                self@.call_log == before.call_log.skip(
                    before.call_log.len() - self@.call_log.len(),
                ),
                self@.opportunities == before.opportunities,
                self@.contacts == before.contacts,
                self@.sync_state == before.sync_state,
                self@.next_log_id == before.next_log_id,
                before.wf(),
                before.call_log.len() > keep ==> self@.call_log.len() >= keep,
                before.call_log.len() <= keep ==> self@.call_log.len() == before.call_log.len(),
            decreases self.call_log.len(),
        {
            let ghost now = self@.call_log;
            self.call_log.remove(0);
            proof {
                assert(self@.call_log =~= now.remove(0));
                assert(now.remove(0) =~= before.call_log.skip(
                    before.call_log.len() - now.len() + 1,
                ));
            }
        }
    }

    /// Executes one statement. A statement that the store refuses changes
    /// nothing. `timestamp` is the time that the store assigns to what it
    /// inserts.
    pub fn apply(&mut self, statement: Statement, timestamp: &str) -> (done: Result<
        (),
        StoreError,
    >)
        requires
            old(self)@.wf(),
        ensures
            final(self)@.wf(),
            final(self)@ == old(self)@.applied(statement@, timestamp@),
            done is Ok <==> old(self)@.accepts(statement@),
    {
        match statement {
            Statement::UpsertOpportunity(row) => {
                self.upsert_row(row, timestamp);
                Ok(())
            },
            Statement::DeleteContacts { notice_id } => {
                self.delete_contacts(&notice_id);
                Ok(())
            },
            Statement::InsertContact(contact) => self.insert_contact(contact),
            Statement::SetSyncState { key, value } => {
                self.put_state_row(key, value);
                Ok(())
            },
            Statement::InsertCallLog(entry) => self.insert_log(entry, timestamp),
            Statement::PruneCallLog { keep } => {
                self.prune_log(keep);
                Ok(())
            },
        }
    }

    /// Executes the statements in order and stops at the first that the store
    /// refuses.
    fn run(&mut self, statements: Vec<Statement>, timestamp: &str) -> (done: Result<
        (),
        StoreError,
    >)
        requires
            old(self)@.wf(),
        ensures
            final(self)@.wf(),
            done is Ok <==> old(self)@.accepts_all(statement_views(statements@), timestamp@),
            done is Ok ==> final(self)@ == old(self)@.applied_all(
                statement_views(statements@),
                timestamp@,
            ),
    {
        let ghost before = self@;
        let ghost all = statement_views(statements@);
        let mut waiting = statements;
        while waiting.len() > 0
            invariant
                self@.wf(),
                before == old(self)@,
                all == statement_views(statements@),
                before.accepts_all(all, timestamp@) == self@.accepts_all(
                    statement_views(waiting@),
                    timestamp@,
                ),
                before.applied_all(all, timestamp@) == self@.applied_all(
                    statement_views(waiting@),
                    timestamp@,
                ),
            decreases waiting.len(),
        {
            let ghost due = statement_views(waiting@);
            let ghost here = self@;
            let statement = waiting.remove(0);
            proof {
                assert(statement@ == due[0]);
                assert(statement_views(waiting@) =~= due.drop_first());
            }
            match self.apply(statement, timestamp) {
                Ok(_) => {},
                Err(error) => {
                    proof {
                        assert(!here.accepts(due[0]));
                        assert(!here.accepts_all(due, timestamp@));
                    }
                    return Err(error);
                },
            }
        }
        Ok(())
    }
}

/// Inserting contacts of a notice that is stored is never refused, and adds
/// them to the table in their order.
proof fn lemma_contact_inserts(
    db: DatabaseView,
    contacts: Seq<ContactRowView>,
    key: Seq<char>,
    timestamp: Seq<char>,
)
    requires
        has_row(db.opportunities, key),
        forall|i: int| 0 <= i < contacts.len() ==> (#[trigger] contacts[i]).notice_id == key,
    ensures
        db.accepts_all(contact_inserts(contacts), timestamp),
        db.applied_all(contact_inserts(contacts), timestamp) == (DatabaseView {
            contacts: db.contacts + contacts,
            ..db
        }),
    decreases contacts.len(),
{
    let statements = contact_inserts(contacts);
    if contacts.len() == 0 {
        assert(db.contacts + contacts =~= db.contacts);
    } else {
        assert(statements[0] == StatementView::InsertContact(contacts[0]));
        assert(statements.drop_first() =~= contact_inserts(contacts.drop_first()));
        let next = db.applied(statements[0], timestamp);
        lemma_contact_inserts(next, contacts.drop_first(), key, timestamp);
        assert(db.contacts.push(contacts[0]) + contacts.drop_first() =~= db.contacts
            + contacts);
    }
}

/// A row that was put is there.
proof fn lemma_put_row_has(
    rows: Seq<StoredOpportunityView>,
    row: OpportunityRowView,
    now: Seq<char>,
)
    ensures
        has_row(put_row(rows, row, now), row.notice_id),
{
    let after = put_row(rows, row, now);
    if has_row(rows, row.notice_id) {
        let w = choose|w: int|
            0 <= w < rows.len() && (#[trigger] rows[w]).row.notice_id == row.notice_id;
        assert(after[w].row.notice_id == row.notice_id);
    } else {
        assert(after[rows.len() as int].row.notice_id == row.notice_id);
    }
}

/// What storing one notice that has a natural key does to the tables: its row
/// is put, and its contacts take the place of those that were stored for it.
/// None of the statements is refused.
pub proof fn lemma_upsert_plan(db: DatabaseView, opp: OpportunityView, timestamp: Seq<char>)
    requires
        row_of(opp) is Some,
    ensures
        db.accepts_all(upsert_plan(opp), timestamp),
        db.applied_all(upsert_plan(opp), timestamp) == (DatabaseView {
            opportunities: put_row(db.opportunities, row_of(opp).unwrap(), timestamp),
            contacts: without_contacts(db.contacts, opp.notice_id.unwrap()) + contacts_of(opp),
            ..db
        }),
{
    let row = row_of(opp).unwrap();
    let key = row.notice_id;
    let plan = upsert_plan(opp);
    let inserts = contact_inserts(contacts_of(opp));
    assert(plan[0] == StatementView::UpsertOpportunity(row));
    assert(plan.drop_first()[0] == StatementView::DeleteContacts { notice_id: key });
    assert(plan.drop_first().drop_first() =~= inserts);
    let first = db.applied(plan[0], timestamp);
    let second = first.applied(plan.drop_first()[0], timestamp);
    lemma_put_row_has(db.opportunities, row, timestamp);
    assert(second.opportunities == put_row(db.opportunities, row, timestamp));
    assert forall|i: int| 0 <= i < contacts_of(opp).len() implies (#[trigger] contacts_of(
        opp,
    )[i]).notice_id == key by {}
    lemma_contact_inserts(second, contacts_of(opp), key, timestamp);
    assert(db.accepts_all(plan, timestamp) == (db.accepts(plan[0]) && first.accepts_all(
        plan.drop_first(),
        timestamp,
    )));
    assert(first.accepts_all(plan.drop_first(), timestamp) == (first.accepts(
        plan.drop_first()[0],
    ) && second.accepts_all(inserts, timestamp)));
    assert(db.applied_all(plan, timestamp) == first.applied_all(plan.drop_first(), timestamp));
    assert(first.applied_all(plan.drop_first(), timestamp) == second.applied_all(
        inserts,
        timestamp,
    ));
}

impl DatabaseView {
    /// The tables after each of the notices was stored, in order, at the time
    /// `timestamp`.
    pub open spec fn stored_all(
        self,
        records: Seq<OpportunityView>,
        timestamp: Seq<char>,
    ) -> DatabaseView
        decreases records.len(),
    {
        if records.len() == 0 {
            self
        } else {
            self.stored_all(records.drop_last(), timestamp).applied_all(
                upsert_plan(records.last()),
                timestamp,
            )
        }
    }
}

impl Database {
    /// Stores one notice at the time `timestamp`: a notice without a natural
    /// key changes nothing; for any other, its row is upserted by the key and
    /// its contacts take the place of those that were stored for the key.
    pub fn upsert_opportunity(&mut self, opp: &Opportunity, timestamp: &str)
        requires
            old(self)@.wf(),
        ensures
            final(self)@.wf(),
            final(self)@ == old(self)@.applied_all(upsert_plan(opp@), timestamp@),
    {
        let statements = upsert_statements(opp);
        proof {
            if row_of(opp@) is Some {
                lemma_upsert_plan(self@, opp@, timestamp@);
            }
        }
        match self.run(statements, timestamp) {
            Ok(_) => {},
            Err(_) => {
                proof {
                    assert(false);
                }
            },
        }
    }

    /// Stores every notice of a response, in order, at the time `timestamp`.
    /// A response without a record array changes nothing.
    pub fn upsert_opportunities(&mut self, response: &ApiResponse, timestamp: &str)
        requires
            old(self)@.wf(),
        ensures
            final(self)@.wf(),
            final(self)@ == (match response@.opportunities_data {
                Some(records) => old(self)@.stored_all(records, timestamp@),
                None => old(self)@,
            }),
    {
        let ghost before = self@;
        if let Some(records) = &response.opportunities_data {
            let ghost all = response@.opportunities_data.unwrap();
            let mut i: usize = 0;
            proof {
                assert(all.take(0) =~= Seq::empty());
            }
            while i < records.len()
                invariant
                    0 <= i <= records.len(),
                    all.len() == records.len(),
                    forall|j: int| 0 <= j < all.len() ==> (#[trigger] all[j]) == records@[j]@,
                    self@.wf(),
                    self@ == before.stored_all(all.take(i as int), timestamp@),
                decreases records.len() - i,
            {
                self.upsert_opportunity(&records[i], timestamp);
                proof {
                    assert(all.take(i + 1).drop_last() =~= all.take(i as int));
                    assert(all.take(i + 1).last() == records@[i as int]@);
                }
                i += 1;
            }
            proof {
                assert(all.take(i as int) =~= all);
            }
        }
    }

    /// The value stored under the key.
    pub fn get_sync_state(&self, key: &str) -> (value: Option<String>)
        ensures
            opt_text(value) == state_value(self@.sync_state, key@),
    {
        let wanted = String::from_str(key);
        let mut i: usize = 0;
        proof {
            assert(self@.sync_state.skip(0) =~= self@.sync_state);
        }
        while i < self.sync_state.len()
            invariant
                0 <= i <= self.sync_state.len(),
                wanted@ == key@,
                state_value(self@.sync_state, key@) == state_value(
                    self@.sync_state.skip(i as int),
                    key@,
                ),
            decreases self.sync_state.len() - i,
        {
            proof {
                assert(self@.sync_state.skip(i as int)[0] == self@.sync_state[i as int]);
                assert(self@.sync_state.skip(i as int).drop_first() =~= self@.sync_state.skip(
                    i + 1,
                ));
            }
            if same_string(&self.sync_state[i].key, &wanted) {
                return Some(self.sync_state[i].value.clone());
            }
            i += 1;
        }
        None
    }

    /// Stores the value under the key, in place of the value that is there.
    pub fn set_sync_state(&mut self, key: &str, value: &str)
        requires
            old(self)@.wf(),
        ensures
            final(self)@.wf(),
            final(self)@ == old(self)@.applied(
                StatementView::SetSyncState { key: key@, value: value@ },
                Seq::empty(),
            ),
            state_value(final(self)@.sync_state, key@) == Some(value@),
    {
        proof {
            law_sync_state_reads_what_was_set(self@.sync_state, key@, value@, key@);
        }
        self.put_state_row(String::from_str(key), String::from_str(value));
    }

    /// The least posting date among the stored notices that have one, as
    /// texts compare.
    pub fn get_earliest_posted_date(&self) -> (date: Option<String>)
        ensures
            opt_text(date) == earliest_posted(self@.opportunities),
    {
        let mut least: Option<usize> = None;
        let mut i: usize = 0;
        proof {
            assert(self@.opportunities.take(0) =~= Seq::empty());
        }
        while i < self.opportunities.len()
            invariant
                0 <= i <= self.opportunities.len(),
                match least {
                    Some(at) => at < i && earliest_posted(self@.opportunities.take(i as int))
                        == self@.opportunities[at as int].row.posted_date
                        && self@.opportunities[at as int].row.posted_date is Some,
                    None => earliest_posted(self@.opportunities.take(i as int)) is None,
                },
            decreases self.opportunities.len() - i,
        {
            proof {
                assert(self@.opportunities.take(i + 1).drop_last() =~= self@.opportunities.take(
                    i as int,
                ));
                assert(self@.opportunities.take(i + 1).last() == self@.opportunities[i as int]);
            }
            if let Some(date) = &self.opportunities[i].row.posted_date {
                match least {
                    None => {
                        least = Some(i);
                    },
                    Some(at) => {
                        if let Some(other) = &self.opportunities[at].row.posted_date {
                            if text_before(date.as_str(), other.as_str()) {
                                least = Some(i);
                            }
                        }
                    },
                }
            }
            i += 1;
        }
        proof {
            assert(self@.opportunities.take(i as int) =~= self@.opportunities);
        }
        match least {
            Some(at) => copy_opt(&self.opportunities[at].row.posted_date),
            None => None,
        }
    }

    /// Records one execution of a window fetch and cuts the call log down to
    /// its [`CALL_LOG_CAPACITY`] most recent rows. The call is refused, and
    /// changes nothing, exactly where the number of records does not fit its
    /// column or the identifiers of the log are used up.
    pub fn log_api_call(
        &mut self,
        context: &str,
        posted_from: Option<&str>,
        posted_to: Option<&str>,
        api_calls: u32,
        records_fetched: usize,
        rate_limited: bool,
        error_message: Option<&str>,
        timestamp: &str,
    ) -> (done: Result<(), StoreError>)
        requires
            old(self)@.wf(),
        ensures
            final(self)@.wf(),
            done is Ok <==> records_fetched <= i64::MAX && old(self)@.next_log_id < i64::MAX,
            done is Ok ==> final(self)@.call_log.len() <= CALL_LOG_CAPACITY,
            done is Ok ==> final(self)@ == old(self)@.applied_all(
                log_plan(
                    entry_of(
                        context@,
                        opt_str(posted_from),
                        opt_str(posted_to),
                        api_calls,
                        records_fetched,
                        rate_limited,
                        opt_str(error_message),
                    ),
                ),
                timestamp@,
            ),
            done is Err ==> final(self)@ == old(self)@,
            done == Err::<(), StoreError>(StoreError::CountOutOfRange) <==> records_fetched
                > i64::MAX,
    {
        let entry = match call_log_entry(
            context,
            posted_from,
            posted_to,
            api_calls,
            records_fetched,
            rate_limited,
            error_message,
        ) {
            Ok(entry) => entry,
            Err(error) => {
                return Err(error);
            },
        };
        let ghost before = self@;
        let ghost plan = log_plan(entry@);
        proof {
            assert(plan.drop_first() =~= seq![
                StatementView::PruneCallLog { keep: CALL_LOG_CAPACITY },
            ]);
            assert(plan.drop_first().drop_first() =~= Seq::empty());
        }
        match self.insert_log(entry, timestamp) {
            Err(error) => Err(error),
            Ok(_) => {
                self.prune_log(CALL_LOG_CAPACITY);
                proof {
                    let first = before.applied(plan[0], timestamp@);
                    let second = first.applied(plan[1], timestamp@);
                    assert(plan.drop_first()[0] == plan[1]);
                    assert(before.applied_all(plan, timestamp@) == first.applied_all(
                        plan.drop_first(),
                        timestamp@,
                    ));
                    assert(first.applied_all(plan.drop_first(), timestamp@)
                        == second.applied_all(plan.drop_first().drop_first(), timestamp@));
                    assert(self@ == second);
                }
                Ok(())
            },
        }
    }

    /// The `limit` most recent rows of the call log, the most recent first.
    pub fn get_api_call_logs(&self, limit: u32) -> (rows: Vec<ApiCallLogRow>)
        ensures
            log_views(rows@) == recent(self@.call_log, limit as nat),
    {
        let total = self.call_log.len();
        let count: usize = if (limit as usize) < total {
            limit as usize
        } else {
            total
        };
        let mut rows: Vec<ApiCallLogRow> = Vec::new();
        let mut i: usize = 0;
        while i < count
            invariant
                0 <= i <= count <= total,
                total == self.call_log.len(),
                rows@.len() == i,
                forall|j: int|
                    0 <= j < i ==> (#[trigger] rows@[j])@ == self@.call_log[total - 1 - j],
            decreases count - i,
        {
            rows.push(copy_log_row(&self.call_log[total - 1 - i]));
            i += 1;
        }
        proof {
            assert(log_views(rows@) =~= recent(self@.call_log, limit as nat));
        }
        rows
    }
}

/// The contacts of a notice in two tables laid end to end are its contacts in
/// the first, then its contacts in the second.
proof fn lemma_contacts_for_add(a: Seq<ContactRowView>, b: Seq<ContactRowView>, key: Seq<char>)
    ensures
        contacts_for(a + b, key) == contacts_for(a, key) + contacts_for(b, key),
    decreases a.len(),
{
    if a.len() == 0 {
        assert(a + b =~= b);
        assert(contacts_for(a, key) + contacts_for(b, key) =~= contacts_for(b, key));
    } else {
        assert((a + b).drop_first() =~= a.drop_first() + b);
        lemma_contacts_for_add(a.drop_first(), b, key);
        assert((a + b)[0] == a[0]);
        if a[0].notice_id == key {
            assert(seq![a[0]] + (contacts_for(a.drop_first(), key) + contacts_for(b, key)) =~= (
            seq![a[0]] + contacts_for(a.drop_first(), key)) + contacts_for(b, key));
        }
    }
}

/// Deleting the contacts of one notice leaves it none, and leaves every other
/// notice its contacts.
proof fn lemma_contacts_for_without(
    contacts: Seq<ContactRowView>,
    deleted: Seq<char>,
    key: Seq<char>,
)
    ensures
        contacts_for(without_contacts(contacts, deleted), key) == (if key == deleted {
            Seq::empty()
        } else {
            contacts_for(contacts, key)
        }),
    decreases contacts.len(),
{
    if contacts.len() > 0 {
        let rest = contacts.drop_first();
        lemma_contacts_for_without(rest, deleted, key);
        if contacts[0].notice_id != deleted {
            lemma_contacts_for_add(seq![contacts[0]], without_contacts(rest, deleted), key);
            assert(seq![contacts[0]].drop_first() =~= Seq::empty());
            assert(contacts_for(seq![contacts[0]].drop_first(), key) =~= Seq::empty());
            if contacts[0].notice_id == key {
                assert(contacts_for(seq![contacts[0]], key) =~= seq![contacts[0]]);
            } else {
                assert(contacts_for(seq![contacts[0]], key) =~= Seq::empty());
                assert(Seq::<ContactRowView>::empty() + contacts_for(rest, key)
                    =~= contacts_for(rest, key));
            }
        }
    }
}

/// Among contacts that all belong to one notice, that notice has them all
/// and every other notice has none.
proof fn lemma_contacts_for_own(contacts: Seq<ContactRowView>, owner: Seq<char>, key: Seq<char>)
    requires
        forall|i: int| 0 <= i < contacts.len() ==> (#[trigger] contacts[i]).notice_id == owner,
    ensures
        contacts_for(contacts, key) == (if key == owner {
            contacts
        } else {
            Seq::empty()
        }),
    decreases contacts.len(),
{
    if contacts.len() > 0 {
        let rest = contacts.drop_first();
        assert forall|i: int| 0 <= i < rest.len() implies (#[trigger] rest[i]).notice_id
            == owner by {
            assert(rest[i] == contacts[i + 1]);
        }
        lemma_contacts_for_own(rest, owner, key);
        assert(contacts[0].notice_id == owner);
        if key == owner {
            assert(seq![contacts[0]] + rest =~= contacts);
        }
    }
}

/// Every contact that is left after a deletion was there before.
proof fn lemma_without_contacts_subset(contacts: Seq<ContactRowView>, key: Seq<char>, i: int)
    requires
        0 <= i < without_contacts(contacts, key).len(),
    ensures
        exists|j: int|
            0 <= j < contacts.len() && (#[trigger] contacts[j]) == without_contacts(
                contacts,
                key,
            )[i],
    decreases contacts.len(),
{
    if contacts.len() > 0 {
        let rest = contacts.drop_first();
        if contacts[0].notice_id == key {
            lemma_without_contacts_subset(rest, key, i);
            let j = choose|j: int|
                0 <= j < rest.len() && (#[trigger] rest[j]) == without_contacts(rest, key)[i];
            assert(contacts[j + 1] == rest[j]);
        } else if i == 0 {
            assert(contacts[0] == without_contacts(contacts, key)[0]);
        } else {
            lemma_without_contacts_subset(rest, key, i - 1);
            let j = choose|j: int|
                0 <= j < rest.len() && (#[trigger] rest[j]) == without_contacts(rest, key)[i - 1];
            assert(contacts[j + 1] == rest[j]);
        }
    }
}

/// Storing a notice keeps the tables well-formed.
pub proof fn lemma_upsert_keeps_wf(db: DatabaseView, opp: OpportunityView, timestamp: Seq<char>)
    requires
        db.wf(),
    ensures
        db.applied_all(upsert_plan(opp), timestamp).wf(),
{
    let after = db.applied_all(upsert_plan(opp), timestamp);
    if row_of(opp) is Some {
        let row = row_of(opp).unwrap();
        let key = row.notice_id;
        lemma_upsert_plan(db, opp, timestamp);
        lemma_put_row_has(db.opportunities, row, timestamp);
        let kept = without_contacts(db.contacts, key);
        assert forall|i: int| 0 <= i < after.contacts.len() implies has_row(
            after.opportunities,
            (#[trigger] after.contacts[i]).notice_id,
        ) by {
            if i < kept.len() {
                lemma_without_contacts_subset(db.contacts, key, i);
                let j = choose|j: int|
                    0 <= j < db.contacts.len() && (#[trigger] db.contacts[j]) == kept[i];
                let wanted = db.contacts[j].notice_id;
                let w = choose|w: int|
                    0 <= w < db.opportunities.len() && (
                    #[trigger] db.opportunities[w]).row.notice_id == wanted;
                assert(after.opportunities[w].row.notice_id == wanted);
            } else {
                assert(after.contacts[i] == contacts_of(opp)[i - kept.len()]);
            }
        }
    }
}

/// Once a notice with a natural key is stored, the table holds exactly one row
/// with that key, and this row holds the values of the notice and is marked
/// as modified at the time of the write. Where the key was there, the row has
/// kept its place and its time of creation; where it is new, the table has
/// grown by this one row, created at the time of the write. Every row with
/// another key is as it was.
pub proof fn law_upsert_leaves_one_row(db: DatabaseView, opp: OpportunityView, timestamp: Seq<char>)
    requires
        db.wf(),
        opp.notice_id is Some,
    ensures
        ({
            let after = db.applied_all(upsert_plan(opp), timestamp);
            let row = row_of(opp).unwrap();
            &&& after.wf()
            &&& has_row(after.opportunities, row.notice_id)
            &&& forall|i: int|
                0 <= i < after.opportunities.len() && (
                #[trigger] after.opportunities[i]).row.notice_id == row.notice_id ==> {
                    &&& after.opportunities[i].row == row
                    &&& after.opportunities[i].modified_at == timestamp
                    &&& after.opportunities[i].created_at == (if i < db.opportunities.len() {
                        db.opportunities[i].created_at
                    } else {
                        timestamp
                    })
                }
            &&& forall|i: int|
                0 <= i < db.opportunities.len() && (#[trigger] db.opportunities[i]).row.notice_id
                    != row.notice_id ==> after.opportunities[i] == db.opportunities[i]
            &&& after.opportunities.len() == db.opportunities.len() + (if has_row(
                db.opportunities,
                row.notice_id,
            ) {
                0int
            } else {
                1int
            })
        }),
{
    let after = db.applied_all(upsert_plan(opp), timestamp);
    let row = row_of(opp).unwrap();
    lemma_upsert_plan(db, opp, timestamp);
    lemma_upsert_keeps_wf(db, opp, timestamp);
    lemma_put_row_has(db.opportunities, row, timestamp);
}

/// Storing a notice again under the same key, with whatever other values and
/// at whatever later time, leaves exactly one row for the key, with the values
/// that were stored last, and adds no row. The row is marked as modified at
/// the time of the second write and as created when it was before.
pub proof fn law_reupsert_keeps_latest(
    db: DatabaseView,
    first: OpportunityView,
    earlier: Seq<char>,
    second: OpportunityView,
    later: Seq<char>,
)
    requires
        db.wf(),
        first.notice_id is Some,
        second.notice_id == first.notice_id,
    ensures
        ({
            let once = db.applied_all(upsert_plan(first), earlier);
            let twice = once.applied_all(upsert_plan(second), later);
            let row = row_of(second).unwrap();
            &&& unique_keys(twice.opportunities)
            &&& twice.opportunities.len() == once.opportunities.len()
            &&& has_row(twice.opportunities, row.notice_id)
            &&& forall|i: int|
                0 <= i < twice.opportunities.len() && (
                #[trigger] twice.opportunities[i]).row.notice_id == row.notice_id ==> {
                    &&& twice.opportunities[i].row == row
                    &&& twice.opportunities[i].modified_at == later
                    &&& twice.opportunities[i].created_at == once.opportunities[i].created_at
                }
        }),
{
    let once = db.applied_all(upsert_plan(first), earlier);
    law_upsert_leaves_one_row(db, first, earlier);
    law_upsert_leaves_one_row(once, second, later);
}

/// Once a notice with a natural key is stored, the contacts stored for its
/// key are exactly its own, in their order: none that was stored before
/// survives, however many there were. The contacts of every other notice are
/// as they were.
pub proof fn law_upsert_replaces_contacts(
    db: DatabaseView,
    opp: OpportunityView,
    timestamp: Seq<char>,
    other: Seq<char>,
)
    requires
        opp.notice_id is Some,
    ensures
        ({
            let after = db.applied_all(upsert_plan(opp), timestamp);
            &&& contacts_for(after.contacts, opp.notice_id.unwrap()) == contacts_of(opp)
            &&& other != opp.notice_id.unwrap() ==> contacts_for(after.contacts, other)
                == contacts_for(db.contacts, other)
        }),
{
    let key = opp.notice_id.unwrap();
    let kept = without_contacts(db.contacts, key);
    let own = contacts_of(opp);
    lemma_upsert_plan(db, opp, timestamp);
    lemma_contacts_for_add(kept, own, key);
    lemma_contacts_for_add(kept, own, other);
    lemma_contacts_for_without(db.contacts, key, key);
    lemma_contacts_for_without(db.contacts, key, other);
    assert forall|i: int| 0 <= i < own.len() implies (#[trigger] own[i]).notice_id == key by {}
    lemma_contacts_for_own(own, key, key);
    lemma_contacts_for_own(own, key, other);
    assert(Seq::<ContactRowView>::empty() + own =~= own);
    assert(contacts_for(db.contacts, other) + Seq::<ContactRowView>::empty() =~= contacts_for(
        db.contacts,
        other,
    ));
}

/// A notice without a natural key is stored by no statement and changes no
/// table.
pub proof fn law_upsert_without_key_stores_nothing(
    db: DatabaseView,
    opp: OpportunityView,
    timestamp: Seq<char>,
)
    requires
        opp.notice_id is None,
    ensures
        upsert_plan(opp).len() == 0,
        db.applied_all(upsert_plan(opp), timestamp) == db,
{
}

impl DatabaseView {
    /// The tables after each of the entries was recorded in the call log, in
    /// order.
    pub open spec fn logged_all(
        self,
        entries: Seq<CallLogEntryView>,
        timestamp: Seq<char>,
    ) -> DatabaseView
        decreases entries.len(),
    {
        if entries.len() == 0 {
            self
        } else {
            self.logged_all(entries.drop_last(), timestamp).applied_all(
                log_plan(entries.last()),
                timestamp,
            )
        }
    }
}

/// Recording an execution leaves the call log with at most
/// [`CALL_LOG_CAPACITY`] rows, whatever it held before.
pub proof fn law_call_log_bounded(db: DatabaseView, entry: CallLogEntryView, timestamp: Seq<char>)
    ensures
        db.applied_all(log_plan(entry), timestamp).call_log.len() <= CALL_LOG_CAPACITY,
{
    let plan = log_plan(entry);
    let first = db.applied(plan[0], timestamp);
    let second = first.applied(plan[1], timestamp);
    assert(plan.drop_first()[0] == plan[1]);
    assert(plan.drop_first().drop_first() =~= Seq::empty());
    assert(db.applied_all(plan, timestamp) == first.applied_all(plan.drop_first(), timestamp));
    assert(first.applied_all(plan.drop_first(), timestamp) == second.applied_all(
        plan.drop_first().drop_first(),
        timestamp,
    ));
}

/// After any sequence of recordings the call log holds at most
/// [`CALL_LOG_CAPACITY`] rows. After none it holds what it held before: the
/// bound then holds of a log that began within it, as an empty one does.
pub proof fn law_call_log_never_exceeds_capacity(
    db: DatabaseView,
    entries: Seq<CallLogEntryView>,
    timestamp: Seq<char>,
)
    requires
        entries.len() > 0 || db.call_log.len() <= CALL_LOG_CAPACITY,
    ensures
        db.logged_all(entries, timestamp).call_log.len() <= CALL_LOG_CAPACITY,
{
    if entries.len() > 0 {
        law_call_log_bounded(
            db.logged_all(entries.drop_last(), timestamp),
            entries.last(),
            timestamp,
        );
    }
}

/// The statements that store every notice of a batch, to be executed in this
/// order as one transaction: the statements of each notice, one notice after
/// the other.
pub open spec fn batch_plan(records: Seq<OpportunityView>) -> Seq<StatementView>
    decreases records.len(),
{
    if records.len() == 0 {
        Seq::empty()
    } else {
        batch_plan(records.drop_last()) + upsert_plan(records.last())
    }
}

/// The statements that store every notice of a response, and none for a
/// response without a record array. See [`batch_plan`].
pub fn batch_statements(response: &ApiResponse) -> (statements: Vec<Statement>)
    ensures
        statement_views(statements@) == (match response@.opportunities_data {
            Some(records) => batch_plan(records),
            None => Seq::empty(),
        }),
{
    let mut statements: Vec<Statement> = Vec::new();
    proof {
        assert(statement_views(statements@) =~= Seq::empty());
    }
    if let Some(records) = &response.opportunities_data {
        let ghost all = response@.opportunities_data.unwrap();
        let mut i: usize = 0;
        proof {
            assert(all.take(0) =~= Seq::empty());
        }
        while i < records.len()
            invariant
                0 <= i <= records.len(),
                all.len() == records.len(),
                forall|j: int| 0 <= j < all.len() ==> (#[trigger] all[j]) == records@[j]@,
                statement_views(statements@) == batch_plan(all.take(i as int)),
            decreases records.len() - i,
        {
            let mut more = upsert_statements(&records[i]);
            let ghost before = statements@;
            let ghost added = more@;
            statements.append(&mut more);
            proof {
                assert(statement_views(before + added) =~= statement_views(before)
                    + statement_views(added));
                assert(all.take(i + 1).drop_last() =~= all.take(i as int));
                assert(all.take(i + 1).last() == records@[i as int]@);
            }
            i += 1;
        }
        proof {
            assert(all.take(i as int) =~= all);
        }
    }
    statements
}

/// Executing two lists of statements, one after the other, is executing the
/// two laid end to end.
pub proof fn lemma_applied_all_add(
    db: DatabaseView,
    first: Seq<StatementView>,
    second: Seq<StatementView>,
    timestamp: Seq<char>,
)
    ensures
        db.applied_all(first + second, timestamp) == db.applied_all(first, timestamp).applied_all(
            second,
            timestamp,
        ),
    decreases first.len(),
{
    if first.len() == 0 {
        assert(first + second =~= second);
    } else {
        assert((first + second)[0] == first[0]);
        assert((first + second).drop_first() =~= first.drop_first() + second);
        lemma_applied_all_add(
            db.applied(first[0], timestamp),
            first.drop_first(),
            second,
            timestamp,
        );
    }
}

/// Executing the statements of a batch stores each of its notices, in order.
pub proof fn law_batch_stores_every_notice(
    db: DatabaseView,
    records: Seq<OpportunityView>,
    timestamp: Seq<char>,
)
    ensures
        db.applied_all(batch_plan(records), timestamp) == db.stored_all(records, timestamp),
    decreases records.len(),
{
    if records.len() > 0 {
        law_batch_stores_every_notice(db, records.drop_last(), timestamp);
        lemma_applied_all_add(
            db,
            batch_plan(records.drop_last()),
            upsert_plan(records.last()),
            timestamp,
        );
    }
}

/// The list of strings that `serde_json` reads out of a JSON text, and `None`
/// where the text is not the JSON of a list of strings.
pub uninterp spec fn json_items(text: Seq<char>) -> Option<Seq<Seq<char>>>;

/// Reads a list of strings out of a JSON text.
///
/// Trusted: the body is `serde_json::from_str`, asked for a list of strings.
/// The contract only names the outcome, as a function of the text alone.
#[verifier::external_body]
fn read_json(text: &str) -> (read: Result<Vec<String>, serde_json::Error>)
    ensures
        match read {
            Ok(items) => json_items(text@) == Some(texts(items@)),
            Err(_) => json_items(text@) is None,
        },
{
    serde_json::from_str(text)
}

/// The links that a `resource_links` column holds: none where the column is
/// empty or its text is not the JSON of a list of strings.
pub open spec fn column_links(column: Option<Seq<char>>) -> Option<Seq<Seq<char>>> {
    match column {
        Some(text) => json_items(text),
        None => None,
    }
}

/// Reads the links out of a `resource_links` column.
pub fn links_of_column(column: &Option<String>) -> (links: Option<Vec<String>>)
    ensures
        opt_texts(links) == column_links(opt_text(*column)),
{
    match column {
        None => None,
        Some(text) => match read_json(text.as_str()) {
            Ok(items) => Some(items),
            Err(_) => None,
        },
    }
}

/// The value under a key among entries with one more entry at their end.
proof fn lemma_state_value_push(entries: Seq<StateRowView>, entry: StateRowView, key: Seq<char>)
    ensures
        state_value(entries.push(entry), key) == (match state_value(entries, key) {
            Some(value) => Some(value),
            None => if entry.key == key {
                Some(entry.value)
            } else {
                None
            },
        }),
    decreases entries.len(),
{
    let more = entries.push(entry);
    if entries.len() == 0 {
        assert(more[0] == entry);
        assert(more.drop_first() =~= entries);
        assert(state_value(entries, key) is None);
    } else {
        assert(more[0] == entries[0]);
        assert(more.drop_first() =~= entries.drop_first().push(entry));
        lemma_state_value_push(entries.drop_first(), entry, key);
    }
}

/// A key that no entry has holds no value.
proof fn lemma_state_value_absent(entries: Seq<StateRowView>, key: Seq<char>)
    requires
        !has_state(entries, key),
    ensures
        state_value(entries, key) is None,
    decreases entries.len(),
{
    if entries.len() > 0 {
        assert(entries[0].key != key);
        assert forall|i: int| 0 <= i < entries.drop_first().len() implies (
        #[trigger] entries.drop_first()[i]).key != key by {
            assert(entries.drop_first()[i] == entries[i + 1]);
        }
        lemma_state_value_absent(entries.drop_first(), key);
    }
}

/// A value that was set is the value that is read, whatever was set for the
/// key before; and setting it changes the value of no other key.
pub proof fn law_sync_state_reads_what_was_set(
    entries: Seq<StateRowView>,
    key: Seq<char>,
    value: Seq<char>,
    other: Seq<char>,
)
    ensures
        state_value(put_state(entries, key, value), key) == Some(value),
        other != key ==> state_value(put_state(entries, key, value), other) == state_value(
            entries,
            other,
        ),
    decreases entries.len(),
{
    let set = put_state(entries, key, value);
    let entry = StateRowView { key, value };
    if !has_state(entries, key) {
        lemma_state_value_push(entries, entry, key);
        lemma_state_value_push(entries, entry, other);
        lemma_state_value_absent(entries, key);
    } else {
        let rest = entries.drop_first();
        if entries[0].key == key {
            assert(set[0] == entry);
        } else {
            let w = choose|w: int| 0 <= w < entries.len() && (#[trigger] entries[w]).key == key;
            assert(rest[w - 1] == entries[w]);
            assert(has_state(rest, key));
            assert(set.drop_first() =~= put_state(rest, key, value));
            assert(set[0] == entries[0]);
            law_sync_state_reads_what_was_set(rest, key, value, other);
        }
        if other != key {
            lemma_put_state_keeps_others(entries, key, value, other);
        }
    }
}

/// Replacing the value of a key where it stands changes the value of no other
/// key.
proof fn lemma_put_state_keeps_others(
    entries: Seq<StateRowView>,
    key: Seq<char>,
    value: Seq<char>,
    other: Seq<char>,
)
    requires
        other != key,
    ensures
        state_value(
            entries.map_values(
                |old: StateRowView|
                    if old.key == key {
                        StateRowView { key, value }
                    } else {
                        old
                    },
            ),
            other,
        ) == state_value(entries, other),
    decreases entries.len(),
{
    let swap = |old: StateRowView|
        if old.key == key {
            StateRowView { key, value }
        } else {
            old
        };
    if entries.len() > 0 {
        assert(entries.map_values(swap).drop_first() =~= entries.drop_first().map_values(swap));
        lemma_put_state_keeps_others(entries.drop_first(), key, value, other);
    }
}

} // verus!
