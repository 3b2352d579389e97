//! Reddit sources: the stored row, its label, the create/edit forms and pages,
//! the unassigned-source picker, and the assistant's add/edit arguments.
use vstd::prelude::*;
use crate::text::{
    chars_of, contains_seq, contains_vec, i64_to_string, int_decimal,
    to_lowercase, trim, trim_str, unicode_lowercase,
};
use crate::reddit::names::{normalize_string_list, normalized_list, string_views};
use crate::reddit::runners::runner_not_found_message;

verus! {

/// One element of a stored JSON array.
#[derive(Debug, Clone)]
pub enum JsonItem {
    Str(String),
    /// Any non-string value.
    Other,
}

/// The stored `subreddits` JSON value, as far as the logic reads it.
#[derive(Debug, Clone)]
pub enum JsonField {
    Array(Vec<JsonItem>),
    Text(String),
    /// Any other JSON value.
    Other,
}

pub open spec fn item_text(i: JsonItem) -> Seq<char> {
    match i {
        JsonItem::Str(s) => s@,
        JsonItem::Other => Seq::empty(),
    }
}

/// The value read as a list of strings (`serde_json::from_value::<Vec<String>>`,
/// empty when it is not an array of strings).
pub open spec fn json_strings(f: JsonField) -> Seq<Seq<char>> {
    match f {
        JsonField::Array(v) => if forall|k: int| 0 <= k < v@.len() ==> (#[trigger] v@[k]) is Str {
            v@.map_values(|i: JsonItem| item_text(i))
        } else {
            Seq::empty()
        },
        _ => Seq::empty(),
    }
}

/// A stored Reddit source; timestamps are Unix seconds.
#[derive(Debug, Clone)]
pub struct RedditSource {
    pub id: i64,
    pub created_at: Option<i64>,
    pub updated_at: Option<i64>,
    pub reddit_runner_id: Option<i64>,
    pub subreddits: JsonField,
    pub search_query: String,
    pub filter: String,
    pub is_filter_whitelist: bool,
    pub max_fresh_posts: i64,
    pub load_websites: bool,
}

/// The stored subreddit list as strings.
pub fn json_string_list(value: &JsonField) -> (r: Vec<String>)
    ensures
        string_views(r@) == json_strings(*value),
{
    match value {
        JsonField::Array(v) => {
            let mut out: Vec<String> = Vec::new();
            let mut i: usize = 0;
            while i < v.len()
                invariant
                    *value == JsonField::Array(*v),
                    i <= v@.len(),
                    forall|k: int| 0 <= k < i ==> (#[trigger] v@[k]) is Str,
                    string_views(out@) == v@.take(i as int).map_values(|x: JsonItem| item_text(x)),
                decreases v.len() - i,
            {
                match &v[i] {
                    JsonItem::Str(s) => {
                        let ghost before = out@;
                        let c = s.clone();
                        assert(item_text(v@[i as int]) == c@);
                        out.push(c);
                        assert(string_views(out@) =~= string_views(before).push(c@));
                        assert(v@.take(i as int + 1).map_values(|x: JsonItem| item_text(x)) =~= v@.take(
                            i as int,
                        ).map_values(|x: JsonItem| item_text(x)).push(c@));
                        assert(string_views(out@) =~= v@.take(i as int + 1).map_values(
                            |x: JsonItem| item_text(x),
                        ));
                    },
                    JsonItem::Other => {
                        let r: Vec<String> = Vec::new();
                        assert(!(v@[i as int] is Str));
                        assert(!(forall|k: int| 0 <= k < v@.len() ==> (#[trigger] v@[k]) is Str));
                        assert(string_views(r@) =~= Seq::<Seq<char>>::empty());
                        assert(json_strings(*value) =~= Seq::<Seq<char>>::empty());
                        return r;
                    },
                }
                i = i + 1;
            }
            assert(v@.take(v@.len() as int) =~= v@);
            out
        },
        _ => {
            let r: Vec<String> = Vec::new();
            assert(string_views(r@) =~= Seq::<Seq<char>>::empty());
            r
        },
    }
}

/// `items` joined with `sep` between neighbours.
pub open spec fn joined(items: Seq<Seq<char>>, sep: Seq<char>) -> Seq<char>
    decreases items.len(),
{
    if items.len() == 0 {
        Seq::empty()
    } else if items.len() == 1 {
        items[0]
    } else {
        joined(items.drop_last(), sep) + sep + items.last()
    }
}

pub fn join_strings(items: &Vec<String>, sep: &str) -> (r: String)
    ensures
        r@ == joined(string_views(items@), sep@),
{
    let mut out = String::new();
    let mut i: usize = 0;
    while i < items.len()
        invariant
            i <= items@.len(),
            out@ == joined(string_views(items@.take(i as int)), sep@),
        decreases items.len() - i,
    {
        let ghost pre = string_views(items@.take(i as int));
        let ghost next = string_views(items@.take(i as int + 1));
        assert(next.drop_last() =~= pre);
        if i != 0 {
            out.append(sep);
        }
        out.append(items[i].as_str());
        if i == 0 {
            assert(out@ =~= next[0]);
        }
        i = i + 1;
    }
    assert(items@.take(items@.len() as int) =~= items@);
    out
}

/// How a source is shown: its subreddits joined by commas (or `#id` when it
/// has none), followed by ` (<query>)` when it has a search query.
pub open spec fn source_label_text(id: i64, subreddits: JsonField, search_query: Seq<char>) -> Seq<
    char,
> {
    let subs = json_strings(subreddits);
    let label = if subs.len() == 0 {
        seq!['#'] + int_decimal(id as int)
    } else {
        joined(subs, seq![','])
    };
    if trim(search_query).len() == 0 {
        label
    } else {
        label + seq![' ', '('] + trim(search_query) + seq![')']
    }
}

pub fn source_label(s: &RedditSource) -> (r: String)
    ensures
        r@ == source_label_text(s.id, s.subreddits, s.search_query@),
{
    let subs = json_string_list(&s.subreddits);
    let mut label = if subs.len() == 0 {
        let mut l = String::new();
        l.push('#');
        let n = i64_to_string(s.id);
        l.append(n.as_str());
        l
    } else {
        proof {
            reveal_strlit(",");
            assert(","@ =~= seq![',']);
        }
        join_strings(&subs, ",")
    };
    let q = trim_str(s.search_query.as_str());
    if q.as_str().is_empty() {
        label
    } else {
        label.push(' ');
        label.push('(');
        label.append(q.as_str());
        label.push(')');
        label
    }
}

/// The cells of a source in the sources table: subreddits (comma and
/// space separated), search query, maximum fresh posts, and `Yes`/`No` for
/// website loading.
pub fn source_list_cells(s: &RedditSource) -> (r: (String, String, String, String))
    ensures
        r.0@ == joined(json_strings(s.subreddits), seq![',', ' ']),
        r.1@ == s.search_query@,
        r.2@ == int_decimal(s.max_fresh_posts as int),
        r.3@ == if s.load_websites { "Yes"@ } else { "No"@ },
{
    let subs = json_string_list(&s.subreddits);
    proof {
        reveal_strlit(", ");
        assert(", "@ =~= seq![',', ' ']);
    }
    let a = join_strings(&subs, ", ");
    let c = i64_to_string(s.max_fresh_posts);
    let d = if s.load_websites {
        String::from_str("Yes")
    } else {
        String::from_str("No")
    };
    (a, s.search_query.clone(), c, d)
}

/// The filter mode shown on a source: `Whitelist` or `Blacklist`.
pub fn filter_mode_label(is_whitelist: bool) -> (r: String)
    ensures
        r@ == if is_whitelist { "Whitelist"@ } else { "Blacklist"@ },
{
    if is_whitelist {
        String::from_str("Whitelist")
    } else {
        String::from_str("Blacklist")
    }
}

/// The worker shown on a source: its name, or an em dash when there is none.
pub fn worker_label(name: String) -> (r: String)
    ensures
        r@ == if name@.len() == 0 { "\u{2014}"@ } else { name@ },
{
    if name.as_str().is_empty() {
        String::from_str("\u{2014}")
    } else {
        name
    }
}

/// The source form.
#[derive(Debug, Clone)]
pub struct SourceForm {
    pub reddit_runner_id: Option<i64>,
    pub subreddits: Vec<String>,
    pub search_query: String,
    pub is_filter_whitelist: bool,
    pub filter: String,
    pub max_fresh_posts: i64,
    pub load_websites: bool,
}

/// The worker form.
#[derive(Debug, Clone)]
pub struct WorkerForm {
    pub name: String,
    pub duration: String,
    pub source_ids: Vec<i64>,
}

/// The name filter of picker tables.
#[derive(Debug, Clone)]
pub struct NameFilterForm {
    pub name: String,
}

/// What a source stores.
#[derive(Debug, Clone)]
pub struct SourceFields {
    pub reddit_runner_id: Option<i64>,
    pub subreddits: Vec<String>,
    pub search_query: String,
    pub filter: String,
    pub is_filter_whitelist: bool,
    pub max_fresh_posts: i64,
    pub load_websites: bool,
}

/// Default number of fresh posts taken per subreddit and pass.
pub const DEFAULT_MAX_FRESH_POSTS: i64 = 25;

/// A runner id as stored: only positive ids refer to a runner.
pub open spec fn runner_ref(id: Option<i64>) -> Option<i64> {
    match id {
        Some(i) => if i > 0 {
            Some(i)
        } else {
            None
        },
        None => None,
    }
}

pub fn positive_runner(id: Option<i64>) -> (r: Option<i64>)
    ensures
        r == runner_ref(id),
{
    match id {
        Some(i) => if i > 0 {
            Some(i)
        } else {
            None
        },
        None => None,
    }
}

/// Message when no usable subreddit was given in a form.
pub open spec fn form_missing_subreddit() -> Seq<char> {
    "At least one subreddit is required"@
}

/// The source a valid form stores: names normalized, positive runner only,
/// trimmed query, a non-positive maximum replaced by 25; a form without any
/// usable subreddit name is refused.
pub fn source_from_form(form: &SourceForm) -> (r: Result<SourceFields, String>)
    ensures
        r is Err <==> normalized_list(string_views(form.subreddits@)).len() == 0,
        r matches Err(m) ==> m@ == form_missing_subreddit(),
        r matches Ok(s) ==> {
            &&& s.reddit_runner_id == runner_ref(form.reddit_runner_id)
            &&& string_views(s.subreddits@) == normalized_list(string_views(form.subreddits@))
            &&& s.search_query@ == trim(form.search_query@)
            &&& s.filter@ == form.filter@
            &&& s.is_filter_whitelist == form.is_filter_whitelist
            &&& s.max_fresh_posts == if form.max_fresh_posts > 0 {
                form.max_fresh_posts
            } else {
                DEFAULT_MAX_FRESH_POSTS
            }
            &&& s.load_websites == form.load_websites
        },
{
    let subs = normalize_string_list(form.subreddits.as_slice());
    if subs.len() == 0 {
        return Err(String::from_str("At least one subreddit is required"));
    }
    Ok(SourceFields {
        reddit_runner_id: positive_runner(form.reddit_runner_id),
        subreddits: subs,
        search_query: trim_str(form.search_query.as_str()),
        filter: form.filter.clone(),
        is_filter_whitelist: form.is_filter_whitelist,
        max_fresh_posts: if form.max_fresh_posts > 0 {
            form.max_fresh_posts
        } else {
            DEFAULT_MAX_FRESH_POSTS
        },
        load_websites: form.load_websites,
    })
}

/// The create-source modal.
#[derive(Debug, Clone)]
pub struct RedditSourceCreatePage {
    pub form_name: String,
    pub refresh_table: String,
    pub target_input: String,
    pub reddit_runner_id: Option<i64>,
    pub runner_display: String,
    pub subreddits: Vec<String>,
    pub search_query: String,
    pub is_filter_whitelist: bool,
    pub filter: String,
    pub max_fresh_posts: i64,
    pub load_websites: bool,
    pub error: String,
}

/// The blank create-source modal.
pub fn new_source_page(form_name: String, refresh_table: String, target_input: String) -> (p:
    RedditSourceCreatePage)
    ensures
        p.form_name@ == form_name@,
        p.refresh_table@ == refresh_table@,
        p.target_input@ == target_input@,
        p.reddit_runner_id is None,
        p.runner_display@ == Seq::<char>::empty(),
        p.subreddits@.len() == 0,
        p.search_query@ == Seq::<char>::empty(),
        !p.is_filter_whitelist,
        p.filter@ == Seq::<char>::empty(),
        p.max_fresh_posts == DEFAULT_MAX_FRESH_POSTS,
        !p.load_websites,
        p.error@ == Seq::<char>::empty(),
{
    RedditSourceCreatePage {
        form_name,
        refresh_table,
        target_input,
        reddit_runner_id: None,
        runner_display: String::new(),
        subreddits: Vec::new(),
        search_query: String::new(),
        is_filter_whitelist: false,
        filter: String::new(),
        max_fresh_posts: DEFAULT_MAX_FRESH_POSTS,
        load_websites: false,
        error: String::new(),
    }
}

/// The create-source modal shown again for a refused form: the form as
/// entered (names normalized) with the error.
pub fn create_page_from_form(
    form: SourceForm,
    form_name: String,
    refresh_table: String,
    target_input: String,
    runner_display: String,
    error: String,
) -> (p: RedditSourceCreatePage)
    ensures
        p.form_name@ == form_name@,
        p.refresh_table@ == refresh_table@,
        p.target_input@ == target_input@,
        p.reddit_runner_id == form.reddit_runner_id,
        p.runner_display@ == runner_display@,
        string_views(p.subreddits@) == normalized_list(string_views(form.subreddits@)),
        p.search_query@ == form.search_query@,
        p.is_filter_whitelist == form.is_filter_whitelist,
        p.filter@ == form.filter@,
        p.max_fresh_posts == form.max_fresh_posts,
        p.load_websites == form.load_websites,
        p.error@ == error@,
{
    let subreddits = normalize_string_list(form.subreddits.as_slice());
    RedditSourceCreatePage {
        form_name,
        refresh_table,
        target_input,
        reddit_runner_id: form.reddit_runner_id,
        runner_display,
        subreddits,
        search_query: form.search_query,
        is_filter_whitelist: form.is_filter_whitelist,
        filter: form.filter,
        max_fresh_posts: form.max_fresh_posts,
        load_websites: form.load_websites,
        error,
    }
}

/// The edit-source page.
#[derive(Debug, Clone)]
pub struct RedditSourceEditPage {
    pub id: i64,
    pub reddit_runner_id: Option<i64>,
    pub runner_display: String,
    pub subreddits: Vec<String>,
    pub search_query: String,
    pub is_filter_whitelist: bool,
    pub filter: String,
    pub max_fresh_posts: i64,
    pub load_websites: bool,
    pub error: String,
}

/// The edit page for a stored source.
pub fn edit_page_from_source(s: RedditSource, runner_display: String) -> (p: RedditSourceEditPage)
    ensures
        p.id == s.id,
        p.reddit_runner_id == s.reddit_runner_id,
        p.runner_display@ == runner_display@,
        string_views(p.subreddits@) == json_strings(s.subreddits),
        p.search_query@ == s.search_query@,
        p.is_filter_whitelist == s.is_filter_whitelist,
        p.filter@ == s.filter@,
        p.max_fresh_posts == s.max_fresh_posts,
        p.load_websites == s.load_websites,
        p.error@ == Seq::<char>::empty(),
{
    let subreddits = json_string_list(&s.subreddits);
    RedditSourceEditPage {
        id: s.id,
        reddit_runner_id: s.reddit_runner_id,
        runner_display,
        subreddits,
        search_query: s.search_query,
        is_filter_whitelist: s.is_filter_whitelist,
        filter: s.filter,
        max_fresh_posts: s.max_fresh_posts,
        load_websites: s.load_websites,
        error: String::new(),
    }
}

/// The edit page shown again for a refused form.
pub fn edit_page_from_form(id: i64, form: SourceForm, runner_display: String, error: String) -> (p:
    RedditSourceEditPage)
    ensures
        p.id == id,
        p.reddit_runner_id == form.reddit_runner_id,
        p.runner_display@ == runner_display@,
        string_views(p.subreddits@) == normalized_list(string_views(form.subreddits@)),
        p.search_query@ == form.search_query@,
        p.is_filter_whitelist == form.is_filter_whitelist,
        p.filter@ == form.filter@,
        p.max_fresh_posts == form.max_fresh_posts,
        p.load_websites == form.load_websites,
        p.error@ == error@,
{
    let subreddits = normalize_string_list(form.subreddits.as_slice());
    RedditSourceEditPage {
        id,
        reddit_runner_id: form.reddit_runner_id,
        runner_display,
        subreddits,
        search_query: form.search_query,
        is_filter_whitelist: form.is_filter_whitelist,
        filter: form.filter,
        max_fresh_posts: form.max_fresh_posts,
        load_websites: form.load_websites,
        error,
    }
}

/// Query of the unassigned-source picker.
#[derive(Debug, Clone)]
pub struct SourceUnsetSelectQuery {
    pub name: Option<String>,
    pub target_input: Option<String>,
}

/// One row of the unassigned-source picker.
#[derive(Debug, Clone)]
pub struct SourceSelectRow {
    pub id: i64,
    pub label: String,
}

/// The input a picker selection fills: the given one, or `source_ids`.
pub fn select_target_input(q: &SourceUnsetSelectQuery) -> (r: String)
    ensures
        q.target_input matches Some(t) ==> r@ == t@,
        q.target_input is None ==> r@ == "source_ids"@,
{
    match &q.target_input {
        Some(t) => t.clone(),
        None => String::from_str("source_ids"),
    }
}

/// Whether a picker row is shown for the name filter `f`: a blank filter
/// shows everything, otherwise the lowercased filter must occur in the
/// lowercased label.
pub open spec fn row_shown(label: Seq<char>, f: Seq<char>) -> bool {
    trim(f).len() == 0 || contains_seq(unicode_lowercase(label), unicode_lowercase(f))
}

/// The picker rows that the name filter keeps, in order.
pub open spec fn shown_rows(rows: Seq<SourceSelectRow>, f: Seq<char>) -> Seq<SourceSelectRow>
    decreases rows.len(),
{
    if rows.len() == 0 {
        Seq::empty()
    } else {
        let rest = shown_rows(rows.drop_last(), f);
        if row_shown(rows.last().label@, f) {
            rest.push(rows.last())
        } else {
            rest
        }
    }
}

/// The picker rows matching the query's name filter.
pub fn filter_select_rows(rows: Vec<SourceSelectRow>, name: &Option<String>) -> (r: Vec<
    SourceSelectRow,
>)
    ensures
        r@ == shown_rows(
            rows@,
            match name {
                Some(n) => n@,
                None => Seq::empty(),
            },
        ),
{
    let f = match name {
        Some(n) => n.clone(),
        None => String::new(),
    };
    let blank = trim_str(f.as_str()).as_str().is_empty();
    let fl = to_lowercase(f.as_str());
    let fv = chars_of(fl.as_str());
    let mut out: Vec<SourceSelectRow> = Vec::new();
    let mut i: usize = 0;
    let n = rows.len();
    while i < n
        invariant
            n == rows@.len(),
            i <= n,
            blank == (trim(f@).len() == 0),
            fv@ == unicode_lowercase(f@),
            out@ == shown_rows(rows@.take(i as int), f@),
        decreases n - i,
    {
        let row = &rows[i];
        let keep = if blank {
            true
        } else {
            let ll = to_lowercase(row.label.as_str());
            let lv = chars_of(ll.as_str());
            contains_vec(&lv, &fv)
        };
        assert(rows@.take(i as int + 1).drop_last() =~= rows@.take(i as int));
        if keep {
            out.push(SourceSelectRow { id: row.id, label: row.label.clone() });
            assert(out@.last() == rows@[i as int]);
        }
        i = i + 1;
    }
    assert(rows@.take(n as int) =~= rows@);
    out
}

/// The unassigned-source picker: the rows shown, the filter as typed, the
/// input a selection fills, and the page's own path and query.
#[derive(Debug, Clone)]
pub struct RedditSourceUnsetSelectPage {
    pub sources: Vec<SourceSelectRow>,
    pub filter_name: String,
    pub target_input: String,
    pub path_and_query: String,
}

pub open spec fn opt_name(name: Option<String>) -> Seq<char> {
    match name {
        Some(n) => n@,
        None => Seq::empty(),
    }
}

/// The picker page for `rows` (the unassigned sources, newest first) under query `q`.
pub fn unset_select_page(rows: Vec<SourceSelectRow>, q: &SourceUnsetSelectQuery, path_and_query: String) -> (p:
    RedditSourceUnsetSelectPage)
    ensures
        p.sources@ == shown_rows(rows@, opt_name(q.name)),
        p.filter_name@ == opt_name(q.name),
        q.target_input matches Some(t) ==> p.target_input@ == t@,
        q.target_input is None ==> p.target_input@ == "source_ids"@,
        p.path_and_query@ == path_and_query@,
{
    let sources = filter_select_rows(rows, &q.name);
    let filter_name = match &q.name {
        Some(n) => n.clone(),
        None => String::new(),
    };
    RedditSourceUnsetSelectPage {
        sources,
        filter_name,
        target_input: select_target_input(q),
        path_and_query,
    }
}

impl RedditSourceUnsetSelectPage {
    /// The input the table's rows fill: the page's target, or `source_ids` when it is empty.
    pub fn table_target(&self) -> (r: String)
        ensures
            self.target_input@.len() == 0 ==> r@ == "source_ids"@,
            self.target_input@.len() > 0 ==> r@ == self.target_input@,
    {
        if self.target_input.as_str().is_empty() {
            String::from_str("source_ids")
        } else {
            self.target_input.clone()
        }
    }
}

/// Arguments of the assistant's `reddit_add_source`.
#[derive(Debug, Clone)]
pub struct AddSourceArgs {
    pub reddit_runner_id: Option<i64>,
    pub subreddits: Vec<String>,
    pub search_query: Option<String>,
    pub filter: Option<String>,
    pub is_filter_whitelist: Option<bool>,
    pub max_fresh_posts: Option<i64>,
    pub load_websites: Option<bool>,
}

/// Message when no usable subreddit was given to the assistant.
pub open spec fn args_missing_subreddit() -> Seq<char> {
    "at least one subreddit is required"@
}

pub open spec fn text_or_empty(s: Option<String>) -> Seq<char> {
    match s {
        Some(t) => t@,
        None => Seq::empty(),
    }
}

/// Message for a runner id that names no runner.
pub open spec fn runner_missing_text(id: i64) -> Seq<char> {
    "runner "@ + int_decimal(id as int) + " not found"@
}

/// The source the assistant adds: names normalized (at least one needed),
/// positive runner only, and that runner must exist (`runner_exists` is
/// whether the positive runner id given names a stored runner), missing texts
/// empty, flags off by default, and at least one fresh post (25 when not given).
pub open spec fn add_source_error(args: AddSourceArgs, runner_exists: bool) -> Option<Seq<char>> {
    if normalized_list(string_views(args.subreddits@)).len() == 0 {
        Some(args_missing_subreddit())
    } else {
        match runner_ref(args.reddit_runner_id) {
            Some(id) => if runner_exists {
                None
            } else {
                Some(runner_missing_text(id))
            },
            None => None,
        }
    }
}

pub fn new_source_from_args(args: AddSourceArgs, runner_exists: bool) -> (r: Result<SourceFields, String>)
    ensures
        r is Err <==> add_source_error(args, runner_exists) is Some,
        r matches Err(m) ==> add_source_error(args, runner_exists) == Some(m@),
        r matches Ok(s) ==> {
            &&& s.reddit_runner_id == runner_ref(args.reddit_runner_id)
            &&& string_views(s.subreddits@) == normalized_list(string_views(args.subreddits@))
            &&& s.search_query@ == text_or_empty(args.search_query)
            &&& s.filter@ == text_or_empty(args.filter)
            &&& s.is_filter_whitelist == (args.is_filter_whitelist == Some(true))
            &&& s.max_fresh_posts == match args.max_fresh_posts {
                Some(m) => if m >= 1 {
                    m
                } else {
                    1
                },
                None => DEFAULT_MAX_FRESH_POSTS,
            }
            &&& s.load_websites == (args.load_websites == Some(true))
        },
{
    let subs = normalize_string_list(args.subreddits.as_slice());
    if subs.len() == 0 {
        return Err(String::from_str("at least one subreddit is required"));
    }
    match positive_runner(args.reddit_runner_id) {
        Some(id) => if !runner_exists {
            return Err(runner_not_found_message(id));
        },
        None => {},
    }
    let max = match args.max_fresh_posts {
        Some(m) => if m >= 1 {
            m
        } else {
            1
        },
        None => DEFAULT_MAX_FRESH_POSTS,
    };
    Ok(SourceFields {
        reddit_runner_id: positive_runner(args.reddit_runner_id),
        subreddits: subs,
        search_query: match args.search_query {
            Some(t) => t,
            None => String::new(),
        },
        filter: match args.filter {
            Some(t) => t,
            None => String::new(),
        },
        is_filter_whitelist: match args.is_filter_whitelist {
            Some(b) => b,
            None => false,
        },
        max_fresh_posts: max,
        load_websites: match args.load_websites {
            Some(b) => b,
            None => false,
        },
    })
}

/// Arguments of the assistant's `reddit_edit_source`.
#[derive(Debug, Clone)]
pub struct EditSourceArgs {
    pub reddit_source_id: i64,
    pub reddit_runner_id: Option<i64>,
    pub clear_reddit_runner_id: Option<bool>,
    pub subreddits: Option<Vec<String>>,
    pub search_query: Option<String>,
    pub filter: Option<String>,
    pub is_filter_whitelist: Option<bool>,
    pub max_fresh_posts: Option<i64>,
    pub load_websites: Option<bool>,
}

/// What an edit does to the source's runner.
#[derive(Debug, Clone, Copy, PartialEq, Eq, Structural)]
pub enum RunnerChange {
    /// The runner stays as it is.
    Keep,
    /// The source is detached from any runner.
    Clear,
    /// The source moves to this runner (which must exist).
    Assign(i64),
}

pub open spec fn runner_change_spec(clear: Option<bool>, runner: Option<i64>) -> RunnerChange {
    if clear == Some(true) {
        RunnerChange::Clear
    } else {
        match runner {
            Some(v) => if v > 0 {
                RunnerChange::Assign(v)
            } else {
                RunnerChange::Clear
            },
            None => RunnerChange::Keep,
        }
    }
}

/// What the edit does to the runner: clearing wins, a positive id assigns,
/// any other given id detaches.
pub fn runner_change(args: &EditSourceArgs) -> (r: RunnerChange)
    ensures
        r == runner_change_spec(args.clear_reddit_runner_id, args.reddit_runner_id),
{
    if args.clear_reddit_runner_id == Some(true) {
        RunnerChange::Clear
    } else {
        match args.reddit_runner_id {
            Some(v) => if v > 0 {
                RunnerChange::Assign(v)
            } else {
                RunnerChange::Clear
            },
            None => RunnerChange::Keep,
        }
    }
}

/// A stored list of names.
pub fn json_list_of(names: &Vec<String>) -> (r: JsonField)
    ensures
        json_strings(r) == string_views(names@),
{
    let mut items: Vec<JsonItem> = Vec::new();
    let mut i: usize = 0;
    while i < names.len()
        invariant
            i <= names@.len(),
            items@.len() == i,
            forall|k: int| 0 <= k < i ==> (#[trigger] items@[k]) is Str,
            items@.map_values(|x: JsonItem| item_text(x)) == string_views(names@.take(i as int)),
        decreases names.len() - i,
    {
        let ghost before = items@;
        let c = names[i].clone();
        items.push(JsonItem::Str(c));
        assert(item_text(items@[i as int]) == names@[i as int]@);
        assert(items@.map_values(|x: JsonItem| item_text(x)) =~= before.map_values(
            |x: JsonItem| item_text(x),
        ).push(names@[i as int]@));
        assert(string_views(names@.take(i as int + 1)) =~= string_views(names@.take(i as int)).push(
            names@[i as int]@,
        ));
        i = i + 1;
        assert(items@.map_values(|x: JsonItem| item_text(x)) =~= string_views(
            names@.take(i as int),
        ));
    }
    assert(names@.take(names@.len() as int) =~= names@);
    JsonField::Array(items)
}

/// Whether `s` is `e` after the edit `args` at time `now`: given fields
/// replace stored ones, the runner follows `runner_change_spec`.
pub open spec fn edited_source(e: RedditSource, s: RedditSource, args: EditSourceArgs, now: i64) -> bool {
    &&& s.id == e.id
    &&& s.created_at == e.created_at
    &&& s.updated_at == Some(now)
    &&& s.reddit_runner_id == match runner_change_spec(
        args.clear_reddit_runner_id,
        args.reddit_runner_id,
    ) {
        RunnerChange::Keep => e.reddit_runner_id,
        RunnerChange::Clear => None,
        RunnerChange::Assign(v) => Some(v),
    }
    &&& args.subreddits matches Some(v) ==> json_strings(s.subreddits) == normalized_list(
        string_views(v@),
    )
    &&& args.subreddits is None ==> s.subreddits == e.subreddits
    &&& s.search_query@ == match args.search_query {
        Some(q) => q@,
        None => e.search_query@,
    }
    &&& s.filter@ == match args.filter {
        Some(q) => q@,
        None => e.filter@,
    }
    &&& s.is_filter_whitelist == match args.is_filter_whitelist {
        Some(b) => b,
        None => e.is_filter_whitelist,
    }
    &&& s.max_fresh_posts == match args.max_fresh_posts {
        Some(m) => m,
        None => e.max_fresh_posts,
    }
    &&& s.load_websites == match args.load_websites {
        Some(b) => b,
        None => e.load_websites,
    }
}

/// Message for an edit of a source id that is not stored.
pub open spec fn source_missing_text() -> Seq<char> {
    "source not found"@
}

/// Whether a source may be deleted: it must be stored.
pub fn delete_source_check(found: bool) -> (r: Result<(), String>)
    ensures
        r is Ok <==> found,
        r matches Err(m) ==> m@ == source_missing_text(),
{
    if found {
        Ok(())
    } else {
        Err(String::from_str("source not found"))
    }
}

/// Why an edit is refused, checked in this order: the source must be stored,
/// a runner the edit assigns must exist, a given subreddit list must keep at
/// least one usable name.
pub open spec fn edit_source_error(existing: Option<RedditSource>, args: EditSourceArgs, runner_exists: bool) -> Option<Seq<char>> {
    let subs_empty = match args.subreddits {
        Some(v) => normalized_list(string_views(v@)).len() == 0,
        None => false,
    };
    if existing is None {
        Some(source_missing_text())
    } else {
        match runner_change_spec(args.clear_reddit_runner_id, args.reddit_runner_id) {
            RunnerChange::Assign(v) if !runner_exists => Some(runner_missing_text(v)),
            _ => if subs_empty {
                Some(args_missing_subreddit())
            } else {
                None
            },
        }
    }
}

/// The source after an assistant edit at time `now`.  `existing` is the stored
/// row with the edited id, if any; `runner_exists` is whether the runner the
/// edit assigns (a positive id) names a stored runner.
pub fn apply_source_edit(existing: Option<RedditSource>, args: EditSourceArgs, runner_exists: bool, now: i64) -> (r: Result<
    RedditSource,
    String,
>)
    ensures
        r is Err <==> edit_source_error(existing, args, runner_exists) is Some,
        r matches Err(m) ==> edit_source_error(existing, args, runner_exists) == Some(m@),
        r matches Ok(s) ==> existing matches Some(e) && edited_source(e, s, args, now),
{
    let existing = match existing {
        Some(e) => e,
        None => return Err(String::from_str("source not found")),
    };
    let change = runner_change(&args);
    let mut s = existing;
    match change {
        RunnerChange::Keep => {},
        RunnerChange::Clear => {
            s.reddit_runner_id = None;
        },
        RunnerChange::Assign(v) => {
            if !runner_exists {
                return Err(runner_not_found_message(v));
            }
            s.reddit_runner_id = Some(v);
        },
    }
    match args.subreddits {
        Some(v) => {
            let subs = normalize_string_list(v.as_slice());
            if subs.len() == 0 {
                return Err(String::from_str("at least one subreddit is required"));
            }
            s.subreddits = json_list_of(&subs);
        },
        None => {},
    }
    match args.search_query {
        Some(q) => {
            s.search_query = q;
        },
        None => {},
    }
    match args.filter {
        Some(q) => {
            s.filter = q;
        },
        None => {},
    }
    match args.is_filter_whitelist {
        Some(b) => {
            s.is_filter_whitelist = b;
        },
        None => {},
    }
    match args.max_fresh_posts {
        Some(m) => {
            s.max_fresh_posts = m;
        },
        None => {},
    }
    match args.load_websites {
        Some(b) => {
            s.load_websites = b;
        },
        None => {},
    }
    s.updated_at = Some(now);
    Ok(s)
}

/// How many sources the assistant lists: 50 by default, at most 200.
pub fn list_sources_limit(limit: Option<u64>) -> (r: u64)
    ensures
        r == match limit {
            Some(l) => if l <= 200 {
                l
            } else {
                200
            },
            None => 50,
        },
{
    match limit {
        Some(l) => if l <= 200 {
            l
        } else {
            200
        },
        None => 50,
    }
}

/// An edit changes exactly the fields it gives: each given field replaces the
/// stored one, each absent field keeps its stored value, and the row keeps
/// its id and creation time.
pub proof fn lemma_edit_replaces_given_fields(e: RedditSource, s: RedditSource, args: EditSourceArgs, now: i64)
    requires
        edited_source(e, s, args, now),
    ensures
        args.is_filter_whitelist matches Some(b) ==> s.is_filter_whitelist == b,
        args.is_filter_whitelist is None ==> s.is_filter_whitelist == e.is_filter_whitelist,
        args.load_websites matches Some(b) ==> s.load_websites == b,
        args.load_websites is None ==> s.load_websites == e.load_websites,
        args.max_fresh_posts matches Some(m) ==> s.max_fresh_posts == m,
        args.max_fresh_posts is None ==> s.max_fresh_posts == e.max_fresh_posts,
        args.search_query matches Some(q) ==> s.search_query@ == q@,
        args.search_query is None ==> s.search_query@ == e.search_query@,
        args.filter matches Some(f) ==> s.filter@ == f@,
        args.filter is None ==> s.filter@ == e.filter@,
        args.subreddits is None ==> s.subreddits == e.subreddits,
        args.clear_reddit_runner_id == Some(true) ==> s.reddit_runner_id is None,
        args.clear_reddit_runner_id != Some(true) && args.reddit_runner_id is None ==> s.reddit_runner_id
            == e.reddit_runner_id,
        args.clear_reddit_runner_id != Some(true) ==> (args.reddit_runner_id matches Some(v) ==> (v > 0
            ==> s.reddit_runner_id == Some(v))),
        s.id == e.id && s.created_at == e.created_at && s.updated_at == Some(now),
{
}

} // verus!
