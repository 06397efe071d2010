//! The relational schema of the store and the text of every statement that is
//! run against it.

use vstd::prelude::*;
use crate::db::{ContactRow, ContactRowView, OpportunityRow, OpportunityRowView};
use crate::text::{copy_opt, opt_text};

verus! {

/// How the connection to the durable store is set up: write-ahead logging,
/// so that one writer does not block readers, and a bounded wait on a busy
/// store.
pub const PRAGMAS_SQL: &'static str = "PRAGMA journal_mode=WAL;
 PRAGMA synchronous=NORMAL;
 PRAGMA foreign_keys=ON;
 PRAGMA busy_timeout=5000;";

/// Creates the four tables and their indexes where they are not there.
pub const SCHEMA_SQL: &'static str = "CREATE TABLE IF NOT EXISTS opportunities (
 notice_id TEXT NOT NULL PRIMARY KEY,
 title TEXT,
 solicitation_number TEXT,
 department TEXT,
 sub_tier TEXT,
 office TEXT,
 full_parent_path_name TEXT,
 organization_type TEXT,
 opp_type TEXT,
 base_type TEXT,
 posted_date TEXT,
 response_deadline TEXT,
 archive_date TEXT,
 naics_code TEXT,
 classification_code TEXT,
 set_aside TEXT,
 set_aside_description TEXT,
 description TEXT,
 ui_link TEXT,
 active TEXT,
 resource_links TEXT,
 award_amount TEXT,
 award_date TEXT,
 award_number TEXT,
 awardee_name TEXT,
 awardee_duns TEXT,
 awardee_uei_sam TEXT,
 pop_state_code TEXT,
 pop_state_name TEXT,
 pop_city_code TEXT,
 pop_city_name TEXT,
 pop_country_code TEXT,
 pop_country_name TEXT,
 pop_zip TEXT,
 created_at TEXT NOT NULL DEFAULT (datetime('now')),
 modified_at TEXT NOT NULL DEFAULT (datetime('now'))
 );
 CREATE TABLE IF NOT EXISTS contacts (
 id INTEGER PRIMARY KEY AUTOINCREMENT,
 notice_id TEXT NOT NULL REFERENCES opportunities(notice_id) ON DELETE CASCADE,
 contact_type TEXT,
 full_name TEXT,
 email TEXT,
 phone TEXT,
 title TEXT,
 created_at TEXT NOT NULL DEFAULT (datetime('now')),
 modified_at TEXT NOT NULL DEFAULT (datetime('now'))
 );
 CREATE INDEX IF NOT EXISTS idx_opp_posted_date ON opportunities(posted_date);
 CREATE INDEX IF NOT EXISTS idx_opp_naics_code ON opportunities(naics_code);
 CREATE INDEX IF NOT EXISTS idx_opp_opp_type ON opportunities(opp_type);
 CREATE INDEX IF NOT EXISTS idx_opp_base_type ON opportunities(base_type);
 CREATE INDEX IF NOT EXISTS idx_opp_set_aside ON opportunities(set_aside);
 CREATE INDEX IF NOT EXISTS idx_opp_active ON opportunities(active);
 CREATE INDEX IF NOT EXISTS idx_opp_pop_state ON opportunities(pop_state_code);
 CREATE INDEX IF NOT EXISTS idx_opp_naics_type ON opportunities(naics_code, opp_type);
 CREATE INDEX IF NOT EXISTS idx_contacts_notice ON contacts(notice_id);
 CREATE TABLE IF NOT EXISTS sync_state (
 key TEXT PRIMARY KEY,
 value TEXT NOT NULL
 );
 CREATE TABLE IF NOT EXISTS api_call_log (
 id INTEGER PRIMARY KEY AUTOINCREMENT,
 timestamp TEXT NOT NULL DEFAULT (datetime('now')),
 context TEXT NOT NULL,
 posted_from TEXT,
 posted_to TEXT,
 api_calls INTEGER NOT NULL,
 records_fetched INTEGER NOT NULL,
 rate_limited INTEGER NOT NULL DEFAULT 0,
 error_message TEXT
 );";

/// Creates the `api_call_log` table where it is not there.
pub const CALL_LOG_TABLE_SQL: &'static str = "CREATE TABLE IF NOT EXISTS api_call_log (
 id INTEGER PRIMARY KEY AUTOINCREMENT,
 timestamp TEXT NOT NULL DEFAULT (datetime('now')),
 context TEXT NOT NULL,
 posted_from TEXT,
 posted_to TEXT,
 api_calls INTEGER NOT NULL,
 records_fetched INTEGER NOT NULL,
 rate_limited INTEGER NOT NULL DEFAULT 0,
 error_message TEXT
 );";

/// The columns of the `opportunities` table that a row of this crate fills, in
/// the order of the parameters of [`UPSERT_OPPORTUNITY_SQL`].
pub const OPPORTUNITY_COLUMNS: [&'static str; 34] = [
    "notice_id",
    "title",
    "solicitation_number",
    "department",
    "sub_tier",
    "office",
    "full_parent_path_name",
    "organization_type",
    "opp_type",
    "base_type",
    "posted_date",
    "response_deadline",
    "archive_date",
    "naics_code",
    "classification_code",
    "set_aside",
    "set_aside_description",
    "description",
    "ui_link",
    "active",
    "resource_links",
    "award_amount",
    "award_date",
    "award_number",
    "awardee_name",
    "awardee_duns",
    "awardee_uei_sam",
    "pop_state_code",
    "pop_state_name",
    "pop_city_code",
    "pop_city_name",
    "pop_country_code",
    "pop_country_name",
    "pop_zip",
];

/// Inserts a row, or, where a row with its key exists, overwrites every
/// column of that row and refreshes its modification time. The creation time
/// is left as it is.
pub const UPSERT_OPPORTUNITY_SQL: &'static str = "INSERT INTO opportunities (
     notice_id, title, solicitation_number, department, sub_tier, office,
     full_parent_path_name, organization_type, opp_type, base_type,
     posted_date, response_deadline, archive_date, naics_code,
     classification_code, set_aside, set_aside_description, description,
     ui_link, active, resource_links,
     award_amount, award_date, award_number, awardee_name, awardee_duns, awardee_uei_sam,
     pop_state_code, pop_state_name, pop_city_code, pop_city_name, pop_country_code, pop_country_name, pop_zip
 ) VALUES (
     ?1, ?2, ?3, ?4, ?5, ?6, ?7, ?8, ?9, ?10,
     ?11, ?12, ?13, ?14, ?15, ?16, ?17, ?18, ?19, ?20, ?21,
     ?22, ?23, ?24, ?25, ?26, ?27,
     ?28, ?29, ?30, ?31, ?32, ?33, ?34
 )
 ON CONFLICT(notice_id) DO UPDATE SET
     title = excluded.title,
     solicitation_number = excluded.solicitation_number,
     department = excluded.department,
     sub_tier = excluded.sub_tier,
     office = excluded.office,
     full_parent_path_name = excluded.full_parent_path_name,
     organization_type = excluded.organization_type,
     opp_type = excluded.opp_type,
     base_type = excluded.base_type,
     posted_date = excluded.posted_date,
     response_deadline = excluded.response_deadline,
     archive_date = excluded.archive_date,
     naics_code = excluded.naics_code,
     classification_code = excluded.classification_code,
     set_aside = excluded.set_aside,
     set_aside_description = excluded.set_aside_description,
     description = excluded.description,
     ui_link = excluded.ui_link,
     active = excluded.active,
     resource_links = excluded.resource_links,
     award_amount = excluded.award_amount,
     award_date = excluded.award_date,
     award_number = excluded.award_number,
     awardee_name = excluded.awardee_name,
     awardee_duns = excluded.awardee_duns,
     awardee_uei_sam = excluded.awardee_uei_sam,
     pop_state_code = excluded.pop_state_code,
     pop_state_name = excluded.pop_state_name,
     pop_city_code = excluded.pop_city_code,
     pop_city_name = excluded.pop_city_name,
     pop_country_code = excluded.pop_country_code,
     pop_country_name = excluded.pop_country_name,
     pop_zip = excluded.pop_zip,
     modified_at = datetime('now')";

/// Deletes every contact of the notice with the key `?1`.
pub const DELETE_CONTACTS_SQL: &'static str = "DELETE FROM contacts WHERE notice_id = ?1";

/// Inserts one contact.
pub const INSERT_CONTACT_SQL: &'static str =
    "INSERT INTO contacts (notice_id, contact_type, full_name, email, phone, title)
 VALUES (?1, ?2, ?3, ?4, ?5, ?6)";

/// Reads the value stored under the key `?1`.
pub const GET_SYNC_STATE_SQL: &'static str = "SELECT value FROM sync_state WHERE key = ?1";

/// Stores the value `?2` under the key `?1`, in place of the value that is
/// there.
pub const SET_SYNC_STATE_SQL: &'static str = "INSERT INTO sync_state (key, value) VALUES (?1, ?2)
 ON CONFLICT(key) DO UPDATE SET value = excluded.value";

/// Reads the least posting date among the notices that have one.
pub const EARLIEST_POSTED_SQL: &'static str =
    "SELECT MIN(posted_date) FROM opportunities WHERE posted_date IS NOT NULL";

/// Appends one row to the call log.
pub const INSERT_CALL_LOG_SQL: &'static str = "INSERT INTO api_call_log
 (context, posted_from, posted_to, api_calls, records_fetched, rate_limited, error_message)
 VALUES (?1, ?2, ?3, ?4, ?5, ?6, ?7)";

/// Deletes all rows of the call log but the `?1` most recent.
pub const PRUNE_CALL_LOG_SQL: &'static str = "DELETE FROM api_call_log WHERE id NOT IN
 (SELECT id FROM api_call_log ORDER BY id DESC LIMIT ?1)";

/// Reads the `?1` most recent rows of the call log, the most recent first.
pub const RECENT_CALL_LOG_SQL: &'static str = "SELECT id, timestamp, context, posted_from,
 posted_to, api_calls, records_fetched, rate_limited, error_message
 FROM api_call_log ORDER BY id DESC LIMIT ?1";

/// The views of a list of optional strings, in order.
pub open spec fn value_views(values: Seq<Option<String>>) -> Seq<Option<Seq<char>>> {
    values.map_values(|value: Option<String>| opt_text(value))
}

fn push_value(values: &mut Vec<Option<String>>, value: Option<String>)
    ensures
        value_views(final(values)@) == value_views(old(values)@).push(opt_text(value)),
{
    values.push(value);
    proof {
        assert(value_views(values@) =~= value_views(old(values)@).push(opt_text(value)));
    }
}

/// The values of a row in the order of the columns of [`OPPORTUNITY_COLUMNS`].
pub open spec fn opportunity_values(row: OpportunityRowView) -> Seq<Option<Seq<char>>> {
    seq![
        Some(row.notice_id),
        row.title,
        row.solicitation_number,
        row.department,
        row.sub_tier,
        row.office,
        row.full_parent_path_name,
        row.organization_type,
        row.opp_type,
        row.base_type,
        row.posted_date,
        row.response_deadline,
        row.archive_date,
        row.naics_code,
        row.classification_code,
        row.set_aside,
        row.set_aside_description,
        row.description,
        row.ui_link,
        row.active,
        row.resource_links,
        row.award_amount,
        row.award_date,
        row.award_number,
        row.awardee_name,
        row.awardee_duns,
        row.awardee_uei_sam,
        row.pop_state_code,
        row.pop_state_name,
        row.pop_city_code,
        row.pop_city_name,
        row.pop_country_code,
        row.pop_country_name,
        row.pop_zip,
    ]
}

/// The values of a row as the parameters of [`UPSERT_OPPORTUNITY_SQL`].
pub fn opportunity_params(row: &OpportunityRow) -> (values: Vec<Option<String>>)
    ensures
        value_views(values@) == opportunity_values(row@),
{
    let mut values: Vec<Option<String>> = Vec::new();
    proof {
        assert(value_views(values@) =~= Seq::empty());
    }
    push_value(&mut values, Some(row.notice_id.clone()));
    push_value(&mut values, copy_opt(&row.title));
    push_value(&mut values, copy_opt(&row.solicitation_number));
    push_value(&mut values, copy_opt(&row.department));
    push_value(&mut values, copy_opt(&row.sub_tier));
    push_value(&mut values, copy_opt(&row.office));
    push_value(&mut values, copy_opt(&row.full_parent_path_name));
    push_value(&mut values, copy_opt(&row.organization_type));
    push_value(&mut values, copy_opt(&row.opp_type));
    push_value(&mut values, copy_opt(&row.base_type));
    push_value(&mut values, copy_opt(&row.posted_date));
    push_value(&mut values, copy_opt(&row.response_deadline));
    push_value(&mut values, copy_opt(&row.archive_date));
    push_value(&mut values, copy_opt(&row.naics_code));
    push_value(&mut values, copy_opt(&row.classification_code));
    push_value(&mut values, copy_opt(&row.set_aside));
    push_value(&mut values, copy_opt(&row.set_aside_description));
    push_value(&mut values, copy_opt(&row.description));
    push_value(&mut values, copy_opt(&row.ui_link));
    push_value(&mut values, copy_opt(&row.active));
    push_value(&mut values, copy_opt(&row.resource_links));
    push_value(&mut values, copy_opt(&row.award_amount));
    push_value(&mut values, copy_opt(&row.award_date));
    push_value(&mut values, copy_opt(&row.award_number));
    push_value(&mut values, copy_opt(&row.awardee_name));
    push_value(&mut values, copy_opt(&row.awardee_duns));
    push_value(&mut values, copy_opt(&row.awardee_uei_sam));
    push_value(&mut values, copy_opt(&row.pop_state_code));
    push_value(&mut values, copy_opt(&row.pop_state_name));
    push_value(&mut values, copy_opt(&row.pop_city_code));
    push_value(&mut values, copy_opt(&row.pop_city_name));
    push_value(&mut values, copy_opt(&row.pop_country_code));
    push_value(&mut values, copy_opt(&row.pop_country_name));
    push_value(&mut values, copy_opt(&row.pop_zip));
    values
}

/// The values of a contact in the order of the parameters of
/// [`INSERT_CONTACT_SQL`].
pub open spec fn contact_values(row: ContactRowView) -> Seq<Option<Seq<char>>> {
    seq![
        Some(row.notice_id),
        row.contact_type,
        row.full_name,
        row.email,
        row.phone,
        row.title,
    ]
}

/// The values of a contact as the parameters of [`INSERT_CONTACT_SQL`].
pub fn contact_params(row: &ContactRow) -> (values: Vec<Option<String>>)
    ensures
        value_views(values@) == contact_values(row@),
{
    let mut values: Vec<Option<String>> = Vec::new();
    proof {
        assert(value_views(values@) =~= Seq::empty());
    }
    push_value(&mut values, Some(row.notice_id.clone()));
    push_value(&mut values, copy_opt(&row.contact_type));
    push_value(&mut values, copy_opt(&row.full_name));
    push_value(&mut values, copy_opt(&row.email));
    push_value(&mut values, copy_opt(&row.phone));
    push_value(&mut values, copy_opt(&row.title));
    values
}
} // verus!
