//! Building the `WHERE` part of a query over the stored notices, with every
//! value passed as a numbered parameter.

use vstd::prelude::*;
use crate::text::{
    chars_of, decimal, has_char, holds_char, join, joined, opt_text, push_char, push_decimal,
    split_and_trim, split_trimmed, texts,
};

verus! {

/// The clauses of a `WHERE` part and the values of its parameters. Parameter
/// `?n` stands for the `n`-th value, counted from 1.
#[derive(Debug, Clone)]
pub struct QueryBuilder {
    pub clauses: Vec<String>,
    pub params: Vec<String>,
}

/// What a [`QueryBuilder`] holds, as plain mathematical values.
pub struct QueryBuilderView {
    pub clauses: Seq<Seq<char>>,
    pub params: Seq<Seq<char>>,
}

impl View for QueryBuilder {
    type V = QueryBuilderView;

    open spec fn view(&self) -> QueryBuilderView {
        QueryBuilderView { clauses: texts(self.clauses@), params: texts(self.params@) }
    }
}

/// The placeholder of the `n`-th parameter.
pub open spec fn placeholder(n: nat) -> Seq<char> {
    seq!['?'] + decimal(n)
}

/// A character as it stands in a `LIKE` pattern that matches it literally:
/// the backslash, the percent sign and the underscore behind a backslash.
pub open spec fn like_escaped_char(c: char) -> Seq<char> {
    if c == '\\' || c == '%' || c == '_' {
        seq!['\\', c]
    } else {
        seq![c]
    }
}

/// A text as it stands in a `LIKE` pattern that matches it literally.
pub open spec fn like_escaped(text: Seq<char>) -> Seq<char>
    decreases text.len(),
{
    if text.len() == 0 {
        Seq::empty()
    } else {
        like_escaped(text.drop_last()) + like_escaped_char(text.last())
    }
}

/// The pattern that matches every text which holds `search`.
pub open spec fn like_pattern(search: Seq<char>) -> Seq<char> {
    seq!['%'] + like_escaped(search) + seq!['%']
}

/// The clause that looks for a pattern in the title, the solicitation number
/// and the department, with the parameters `first`, `first + 1` and
/// `first + 2`.
pub open spec fn like_clause(first: nat) -> Seq<char> {
    "(title LIKE "@ + placeholder(first) + " ESCAPE '\\' OR solicitation_number LIKE "@
        + placeholder(first + 1) + " ESCAPE '\\' OR department LIKE "@ + placeholder(first + 2)
        + " ESCAPE '\\')"@
}

/// The clause that compares a column with the `n`-th parameter.
pub open spec fn comparison(column: Seq<char>, operator: Seq<char>, n: nat) -> Seq<char> {
    column + operator + placeholder(n)
}

/// The placeholders of `count` parameters from the `first` on.
pub open spec fn placeholders(first: nat, count: nat) -> Seq<Seq<char>> {
    Seq::new(count, |i: int| placeholder((first + i) as nat))
}

/// The clause that looks for a column's value among `count` parameters from
/// the `first` on.
pub open spec fn in_clause(column: Seq<char>, first: nat, count: nat) -> Seq<char> {
    column + " IN ("@ + joined(placeholders(first, count), ", "@) + ")"@
}

/// The views of a list of string slices, in order.
pub open spec fn slice_texts(values: Seq<&str>) -> Seq<Seq<char>> {
    values.map_values(|value: &str| value@)
}

/// The `WHERE` part of the clauses: nothing where there is none, else the
/// clauses joined by `AND`.
pub open spec fn where_text(clauses: Seq<Seq<char>>) -> Seq<char> {
    if clauses.len() == 0 {
        Seq::empty()
    } else {
        "WHERE "@ + joined(clauses, " AND "@)
    }
}

fn placeholder_string(n: usize) -> (text: String)
    ensures
        text@ == placeholder(n as nat),
{
    let mut text = String::new();
    push_char(&mut text, '?');
    push_decimal(&mut text, n as u64);
    proof {
        assert(Seq::<char>::empty().push('?') =~= seq!['?']);
    }
    text
}

fn push_text(list: &mut Vec<String>, text: String)
    ensures
        texts(final(list)@) == texts(old(list)@).push(text@),
{
    list.push(text);
    proof {
        assert(texts(list@) =~= texts(old(list)@).push(text@));
    }
}

impl QueryBuilder {
    /// A builder with no clause and no parameter.
    pub fn new() -> (builder: QueryBuilder)
        ensures
            builder@.clauses.len() == 0,
            builder@.params.len() == 0,
    {
        QueryBuilder { clauses: Vec::new(), params: Vec::new() }
    }

    /// Adds the clause that looks for `search`, taken literally, anywhere in
    /// the title, the solicitation number or the department.
    pub fn add_like_search(&mut self, search: &str)
        ensures
            final(self)@ == old(self)@.with_like_search(search@),
    {
        let chars = chars_of(search);
        let mut pattern = String::new();
        push_char(&mut pattern, '%');
        let mut i: usize = 0;
        proof {
            assert(search@.take(0) =~= Seq::empty());
            assert(pattern@ =~= seq!['%'] + like_escaped(search@.take(0)));
        }
        while i < chars.len()
            invariant
                0 <= i <= chars.len(),
                chars@ == search@,
                pattern@ == seq!['%'] + like_escaped(search@.take(i as int)),
            decreases chars.len() - i,
        {
            let c = chars[i];
            proof {
                assert(search@.take(i + 1).drop_last() =~= search@.take(i as int));
                assert(search@.take(i + 1).last() == c);
            }
            let ghost before = pattern@;
            if c == '\\' || c == '%' || c == '_' {
                push_char(&mut pattern, '\\');
                push_char(&mut pattern, c);
                proof {
                    assert(pattern@ =~= before + seq!['\\', c]);
                }
            } else {
                push_char(&mut pattern, c);
                proof {
                    assert(pattern@ =~= before + seq![c]);
                }
            }
            proof {
                assert(pattern@ =~= seq!['%'] + like_escaped(search@.take(i + 1)));
            }
            i += 1;
        }
        proof {
            assert(search@.take(i as int) =~= search@);
        }
        push_char(&mut pattern, '%');
        proof {
            assert(pattern@ =~= like_pattern(search@));
        }
        let ghost first = old(self)@.params.len() + 1;
        push_text(&mut self.params, pattern.clone());
        push_text(&mut self.params, pattern.clone());
        push_text(&mut self.params, pattern);
        let third = self.params.len();
        proof {
            assert(texts(self.params@).len() == self.params@.len());
            assert(third == first + 2);
        }
        let mut clause = String::from_str("(title LIKE ");
        clause.append(placeholder_string(third - 2).as_str());
        clause.append(" ESCAPE '\\' OR solicitation_number LIKE ");
        clause.append(placeholder_string(third - 1).as_str());
        clause.append(" ESCAPE '\\' OR department LIKE ");
        clause.append(placeholder_string(third).as_str());
        clause.append(" ESCAPE '\\')");
        proof {
            assert(clause@ =~= like_clause(first as nat));
        }
        push_text(&mut self.clauses, clause);
    }

    fn add_comparison(&mut self, column: &str, operator: &str, value: &str)
        ensures
            final(self)@ == old(self)@.with_comparison(column@, operator@, value@),
    {
        push_text(&mut self.params, String::from_str(value));
        proof {
            assert(texts(self.params@).len() == self.params@.len());
        }
        let mut clause = String::from_str(column);
        clause.append(operator);
        clause.append(placeholder_string(self.params.len()).as_str());
        push_text(&mut self.clauses, clause);
    }

    /// Adds the clause that a column equals a value.
    pub fn add_eq(&mut self, column: &str, value: &str)
        ensures
            final(self)@ == old(self)@.with_comparison(column@, " = "@, value@),
    {
        self.add_comparison(column, " = ", value);
    }

    /// Adds the clause that a column is at least a value.
    pub fn add_gte(&mut self, column: &str, value: &str)
        ensures
            final(self)@ == old(self)@.with_comparison(column@, " >= "@, value@),
    {
        self.add_comparison(column, " >= ", value);
    }

    /// Adds the clause that a column is at most a value.
    pub fn add_lte(&mut self, column: &str, value: &str)
        ensures
            final(self)@ == old(self)@.with_comparison(column@, " <= "@, value@),
    {
        self.add_comparison(column, " <= ", value);
    }

    /// Adds the clause that a column has one of the values. With no value
    /// nothing is added.
    pub fn add_in(&mut self, column: &str, values: &[&str])
        ensures
            final(self)@ == old(self)@.with_in(column@, slice_texts(values@)),
    {
        if values.len() == 0 {
            return ;
        }
        let ghost before = self@;
        let ghost first = before.params.len() + 1;
        let mut marks: Vec<String> = Vec::new();
        let mut i: usize = 0;
        proof {
            assert(texts(marks@) =~= placeholders(first as nat, 0));
            assert(self@.params =~= before.params + slice_texts(values@).take(0));
        }
        while i < values.len()
            invariant
                0 <= i <= values.len(),
                first == before.params.len() + 1,
                texts(marks@) == placeholders(first as nat, i as nat),
                self@.params == before.params + slice_texts(values@).take(i as int),
                self@.clauses == before.clauses,
            decreases values.len() - i,
        {
            let ghost held = self@.params;
            let ghost marked = texts(marks@);
            push_text(&mut self.params, String::from_str(values[i]));
            push_text(&mut marks, placeholder_string(self.params.len()));
            proof {
                assert(held.push(values@[i as int]@) =~= before.params + slice_texts(
                    values@,
                ).take(i + 1));
                assert(marked.push(placeholder((first + i) as nat)) =~= placeholders(
                    first as nat,
                    (i + 1) as nat,
                ));
            }
            i += 1;
        }
        proof {
            assert(slice_texts(values@).take(i as int) =~= slice_texts(values@));
        }
        let mut clause = String::from_str(column);
        clause.append(" IN (");
        clause.append(join(&marks, ", ").as_str());
        clause.append(")");
        push_text(&mut self.clauses, clause);
    }

    /// Adds a clause as it is written. It has no parameter.
    pub fn add_literal(&mut self, clause: &str)
        ensures
            final(self)@ == old(self)@.with_literal(clause@),
    {
        push_text(&mut self.clauses, String::from_str(clause));
    }

    /// The `WHERE` part: empty where there is no clause, else `WHERE` and the
    /// clauses joined by `AND`.
    pub fn where_sql(&self) -> (sql: String)
        ensures
            sql@ == where_text(self@.clauses),
    {
        if self.clauses.len() == 0 {
            String::new()
        } else {
            let mut sql = String::from_str("WHERE ");
            sql.append(join(&self.clauses, " AND ").as_str());
            sql
        }
    }

    /// The number that the next parameter gets.
    pub fn next_param_idx(&self) -> (index: usize)
        requires
            self@.params.len() < usize::MAX,
        ensures
            index == self@.params.len() + 1,
    {
        self.params.len() + 1
    }
}

impl QueryBuilderView {
    /// The builder with the clause that looks for `search`.
    pub open spec fn with_like_search(self, search: Seq<char>) -> QueryBuilderView {
        QueryBuilderView {
            clauses: self.clauses.push(like_clause(self.params.len() + 1)),
            params: self.params.push(like_pattern(search)).push(like_pattern(search)).push(
                like_pattern(search),
            ),
        }
    }

    /// The builder with the clause that compares a column with a value.
    pub open spec fn with_comparison(
        self,
        column: Seq<char>,
        operator: Seq<char>,
        value: Seq<char>,
    ) -> QueryBuilderView {
        QueryBuilderView {
            clauses: self.clauses.push(comparison(column, operator, self.params.len() + 1)),
            params: self.params.push(value),
        }
    }

    /// The builder with the clause that a column has one of the values; as
    /// it is where there is no value.
    pub open spec fn with_in(self, column: Seq<char>, values: Seq<Seq<char>>) -> QueryBuilderView {
        if values.len() == 0 {
            self
        } else {
            QueryBuilderView {
                clauses: self.clauses.push(
                    in_clause(column, self.params.len() + 1, values.len()),
                ),
                params: self.params + values,
            }
        }
    }

    /// The builder with a clause as it is written.
    pub open spec fn with_literal(self, clause: Seq<char>) -> QueryBuilderView {
        QueryBuilderView { clauses: self.clauses.push(clause), params: self.params }
    }

    /// The builder with the filter on a column that may name several values:
    /// nothing where no value is given; where the value holds a comma, the
    /// clause that the column has one of the pieces between the commas, each
    /// trimmed; else the clause that the column equals the value as it is.
    pub open spec fn with_choice(self, column: Seq<char>, value: Option<Seq<char>>) -> QueryBuilderView {
        match value {
            None => self,
            Some(given) => if holds_char(given, ',') {
                self.with_in(column, split_trimmed(given, ','))
            } else {
                self.with_comparison(column, " = "@, given)
            },
        }
    }
}

/// The filters of a listing of stored notices.
#[derive(Debug, Clone)]
pub struct ListFilter {
    pub search: Option<String>,
    pub naics_code: Option<String>,
    pub opp_type: Option<String>,
    pub set_aside: Option<String>,
    pub state: Option<String>,
    pub department: Option<String>,
    pub date_from: Option<String>,
    pub date_to: Option<String>,
    pub active_only: Option<bool>,
    pub limit: Option<u32>,
    pub offset: Option<u32>,
}

/// What a [`ListFilter`] holds, as plain mathematical values.
pub struct ListFilterView {
    pub search: Option<Seq<char>>,
    pub naics_code: Option<Seq<char>>,
    pub opp_type: Option<Seq<char>>,
    pub set_aside: Option<Seq<char>>,
    pub state: Option<Seq<char>>,
    pub department: Option<Seq<char>>,
    pub date_from: Option<Seq<char>>,
    pub date_to: Option<Seq<char>>,
    pub active_only: Option<bool>,
    pub limit: Option<u32>,
    pub offset: Option<u32>,
}

impl View for ListFilter {
    type V = ListFilterView;

    open spec fn view(&self) -> ListFilterView {
        ListFilterView {
            search: opt_text(self.search),
            naics_code: opt_text(self.naics_code),
            opp_type: opt_text(self.opp_type),
            set_aside: opt_text(self.set_aside),
            state: opt_text(self.state),
            department: opt_text(self.department),
            date_from: opt_text(self.date_from),
            date_to: opt_text(self.date_to),
            active_only: self.active_only,
            limit: self.limit,
            offset: self.offset,
        }
    }
}

/// The rows of a listing where no number is asked for.
pub const DEFAULT_LIST_LIMIT: u32 = 25;

/// The most rows that one listing hands out.
pub const MAX_LIST_LIMIT: u32 = 100;

/// The rows of the call log that are read where no number is asked for.
pub const DEFAULT_LOG_LIMIT: u32 = 50;

/// The most rows of the call log that one reading hands out.
pub const MAX_LOG_LIMIT: u32 = 200;

/// The number of rows that is handed out: what is asked for, `default` where
/// nothing is, and at most `most`.
pub open spec fn capped(asked: Option<u32>, default: u32, most: u32) -> u32 {
    let wanted = match asked {
        Some(n) => n,
        None => default,
    };
    if wanted < most {
        wanted
    } else {
        most
    }
}

/// The number of rows that is handed out. See [`capped`].
pub fn cap(asked: Option<u32>, default: u32, most: u32) -> (rows: u32)
    ensures
        rows == capped(asked, default, most),
{
    let wanted = match asked {
        Some(n) => n,
        None => default,
    };
    if wanted < most {
        wanted
    } else {
        most
    }
}

/// The clauses of a listing: the search where one is given and is not empty,
/// the filters on the classification code, the type, the set-aside, the state
/// and the department, the posting dates from and to, and whether only
/// active notices are wanted, in this order.
pub open spec fn list_clauses(filter: ListFilterView) -> QueryBuilderView {
    let start = QueryBuilderView { clauses: Seq::empty(), params: Seq::empty() };
    let searched = match filter.search {
        Some(search) => if search.len() > 0 {
            start.with_like_search(search)
        } else {
            start
        },
        None => start,
    };
    let chosen = searched.with_choice("naics_code"@, filter.naics_code).with_choice(
        "opp_type"@,
        filter.opp_type,
    ).with_choice("set_aside"@, filter.set_aside).with_choice(
        "pop_state_code"@,
        filter.state,
    ).with_choice("department"@, filter.department);
    let from = match filter.date_from {
        Some(date) => chosen.with_comparison("posted_date"@, " >= "@, date),
        None => chosen,
    };
    let to = match filter.date_to {
        Some(date) => from.with_comparison("posted_date"@, " <= "@, date),
        None => from,
    };
    if filter.active_only == Some(true) {
        to.with_literal("active = 'Yes'"@)
    } else {
        to
    }
}

impl QueryBuilder {
    /// Adds the filter on a column that may name several values. See
    /// [`QueryBuilderView::with_choice`].
    pub fn add_choice(&mut self, column: &str, value: &Option<String>)
        ensures
            final(self)@ == old(self)@.with_choice(column@, opt_text(*value)),
    {
        if let Some(given) = value {
            if has_char(given.as_str(), ',') {
                let pieces = split_and_trim(given.as_str(), ',');
                let mut refs: Vec<&str> = Vec::new();
                let mut i: usize = 0;
                while i < pieces.len()
                    invariant
                        0 <= i <= pieces.len(),
                        refs@.len() == i,
                        forall|j: int| 0 <= j < i ==> (#[trigger] refs@[j])@ == pieces@[j]@,
                    decreases pieces.len() - i,
                {
                    refs.push(pieces[i].as_str());
                    i += 1;
                }
                proof {
                    assert(slice_texts(refs@) =~= texts(pieces@));
                }
                self.add_in(column, refs.as_slice());
            } else {
                self.add_eq(column, given.as_str());
            }
        }
    }
}

/// The clauses and the parameters of a listing. See [`list_clauses`].
pub fn list_where(filter: &ListFilter) -> (builder: QueryBuilder)
    ensures
        builder@ == list_clauses(filter@),
{
    let mut builder = QueryBuilder::new();
    proof {
        assert(builder@.clauses =~= Seq::empty());
        assert(builder@.params =~= Seq::empty());
    }
    if let Some(search) = &filter.search {
        if !search.as_str().is_empty() {
            builder.add_like_search(search.as_str());
        }
    }
    builder.add_choice("naics_code", &filter.naics_code);
    builder.add_choice("opp_type", &filter.opp_type);
    builder.add_choice("set_aside", &filter.set_aside);
    builder.add_choice("pop_state_code", &filter.state);
    builder.add_choice("department", &filter.department);
    if let Some(date) = &filter.date_from {
        builder.add_gte("posted_date", date.as_str());
    }
    if let Some(date) = &filter.date_to {
        builder.add_lte("posted_date", date.as_str());
    }
    let active_only = match filter.active_only {
        Some(wanted) => wanted,
        None => false,
    };
    if active_only {
        builder.add_literal("active = 'Yes'");
    }
    builder
}

/// The columns that a listing reads of every notice.
pub const LIST_COLUMNS_SQL: &'static str =
    "SELECT notice_id, title, solicitation_number, department, sub_tier, office,
 opp_type, base_type, posted_date, response_deadline, naics_code,
 set_aside, set_aside_description, active, ui_link, pop_state_code, pop_state_name,
 description
 FROM opportunities ";

/// Counts the notices of a listing.
pub const LIST_COUNT_SQL: &'static str = "SELECT COUNT(*) FROM opportunities ";

/// A listing of stored notices as two queries with their parameters: one that
/// counts the notices which pass the filter, one that reads a page of them,
/// the most recently posted first.
#[derive(Debug, Clone)]
pub struct ListQuery {
    pub count_sql: String,
    pub count_params: Vec<String>,
    pub data_sql: String,
    pub data_params: Vec<String>,
    /// The rows of the page.
    pub limit: u32,
    /// The rows before the page.
    pub offset: u32,
}

/// The rows before the page: none where nothing is asked for.
pub open spec fn offset_of(asked: Option<u32>) -> u32 {
    match asked {
        Some(n) => n,
        None => 0,
    }
}

/// The query that reads a page of `limit` rows behind `offset` rows: after
/// the clauses, the order and the two parameters of the page, which follow
/// the `filtered` parameters of the clauses.
pub open spec fn list_data_text(clauses: Seq<Seq<char>>, filtered: nat) -> Seq<char> {
    LIST_COLUMNS_SQL@ + where_text(clauses) + " ORDER BY posted_date DESC LIMIT "@ + placeholder(
        filtered + 1,
    ) + " OFFSET "@ + placeholder(filtered + 2)
}

/// The two queries of a listing. The page has as many rows as are asked for,
/// [`DEFAULT_LIST_LIMIT`] where none are, and at most [`MAX_LIST_LIMIT`].
pub fn list_query(filter: &ListFilter) -> (query: ListQuery)
    ensures
        query.limit == capped(filter.limit, DEFAULT_LIST_LIMIT, MAX_LIST_LIMIT),
        query.offset == offset_of(filter.offset),
        query.count_sql@ == LIST_COUNT_SQL@ + where_text(list_clauses(filter@).clauses),
        texts(query.count_params@) == list_clauses(filter@).params,
        query.data_sql@ == list_data_text(
            list_clauses(filter@).clauses,
            list_clauses(filter@).params.len(),
        ),
        texts(query.data_params@) == list_clauses(filter@).params.push(
            decimal(query.limit as nat),
        ).push(decimal(query.offset as nat)),
{
    let limit = cap(filter.limit, DEFAULT_LIST_LIMIT, MAX_LIST_LIMIT);
    let offset = match filter.offset {
        Some(n) => n,
        None => 0,
    };
    let builder = list_where(filter);
    let where_sql = builder.where_sql();
    let mut count_sql = String::from_str(LIST_COUNT_SQL);
    count_sql.append(where_sql.as_str());

    let mut data_params: Vec<String> = Vec::new();
    let mut i: usize = 0;
    proof {
        assert(texts(data_params@) =~= builder@.params.take(0));
    }
    while i < builder.params.len()
        invariant
            0 <= i <= builder.params.len(),
            texts(data_params@) == builder@.params.take(i as int),
        decreases builder.params.len() - i,
    {
        let ghost copied = texts(data_params@);
        push_text(&mut data_params, builder.params[i].clone());
        proof {
            assert(copied.push(builder.params@[i as int]@) =~= builder@.params.take(i + 1));
        }
        i += 1;
    }
    proof {
        assert(builder@.params.take(i as int) =~= builder@.params);
    }
    push_text(&mut data_params, crate::text::decimal_string(limit as u64));
    let limit_index = data_params.len();
    push_text(&mut data_params, crate::text::decimal_string(offset as u64));
    let offset_index = data_params.len();
    proof {
        assert(texts(data_params@).len() == data_params@.len());
        assert(limit_index == builder@.params.len() + 1);
        assert(offset_index == builder@.params.len() + 2);
    }
    let mut data_sql = String::from_str(LIST_COLUMNS_SQL);
    data_sql.append(where_sql.as_str());
    data_sql.append(" ORDER BY posted_date DESC LIMIT ");
    data_sql.append(placeholder_string(limit_index).as_str());
    data_sql.append(" OFFSET ");
    data_sql.append(placeholder_string(offset_index).as_str());
    let QueryBuilder { clauses, params } = builder;
    ListQuery { count_sql, count_params: params, data_sql, data_params, limit, offset }
}

/// The query that counts the notices by the values of a column, leaving out
/// the notices that have none, the most frequent value first.
pub open spec fn distinct_counts_text(column: Seq<char>) -> Seq<char> {
    "SELECT "@ + column + ", COUNT(*) as cnt FROM opportunities WHERE "@ + column
        + " IS NOT NULL AND "@ + column + " != '' GROUP BY "@ + column + " ORDER BY cnt DESC"@
}

/// The query that counts the notices by the values of a column.
pub fn distinct_counts_sql(column: &str) -> (sql: String)
    ensures
        sql@ == distinct_counts_text(column@),
{
    let mut sql = String::from_str("SELECT ");
    sql.append(column);
    sql.append(", COUNT(*) as cnt FROM opportunities WHERE ");
    sql.append(column);
    sql.append(" IS NOT NULL AND ");
    sql.append(column);
    sql.append(" != '' GROUP BY ");
    sql.append(column);
    sql.append(" ORDER BY cnt DESC");
    sql
}

} // verus!
