//! Per-route handler decisions: list and search projections, the edit-form
//! validator, and the create, update and delete flows. Each handler takes
//! the movie table and the plain values a request carries, and returns the
//! response decision the page layer renders.

use vstd::prelude::*;
use vstd::string::StrSliceExecFns;
use vstd::string::StringExecFns;
use crate::movie_repo;
use crate::movie_repo::{
    delete_count, delete_rows, find_row, lemma_find_index_in_range, lemma_wf_rows, prefix_pred,
    row_wf, status_label, updated_rows, Movie, MovieTable, MovieView, Status,
};
use crate::text::{i32_decimal, i32_to_string, parse_i32, parse_i32_spec};

verus! {

/// A submitted search form: the name prefix to look for.
pub struct ListModel {
    pub name: String,
}

/// A submitted edit form. The id is carried as text and used only to
/// redisplay the form when validation fails.
pub struct EditModel {
    pub id: String,
    pub name: String,
    pub status: String,
    pub description: String,
}

/// One row of the list page: the id, the name, and the status label.
pub struct MovieListDetail {
    pub id: i32,
    pub name: String,
    pub status: String,
}

/// Mathematical image of a list row.
pub ghost struct ListDetailView {
    pub id: i32,
    pub name: Seq<char>,
    pub status: Seq<char>,
}

impl View for MovieListDetail {
    type V = ListDetailView;

    open spec fn view(&self) -> ListDetailView {
        ListDetailView { id: self.id, name: self.name@, status: self.status@ }
    }
}

impl DeepView for MovieListDetail {
    type V = ListDetailView;

    open spec fn deep_view(&self) -> ListDetailView {
        self.view()
    }
}

/// An edit page to render: the action tag, the validation messages, and
/// the form values to show.
pub struct EditPage {
    pub action: String,
    pub message: Vec<String>,
    pub movie: EditModel,
}

/// What a page-producing handler decides to respond.
pub enum PageResponse {
    RedirectToList,
    EditForm(EditPage),
    NotFoundPage,
    ErrorPage,
}

/// What the delete handler decides to respond.
#[derive(Clone, Copy, Debug, PartialEq, Eq, Structural)]
pub enum DeleteResponse {
    Deleted,
    NotFound,
}

/// The contents of an optional text column, an absent column reading as empty.
pub open spec fn seq_or_empty(o: Option<Seq<char>>) -> Seq<char> {
    match o {
        Some(s) => s,
        None => Seq::empty(),
    }
}

/// The list-page image of a stored row: raw id and name, status as a label.
pub open spec fn detail_of(m: MovieView) -> ListDetailView {
    ListDetailView {
        id: m.id.unwrap(),
        name: seq_or_empty(m.name),
        status: status_label(seq_or_empty(m.status)),
    }
}

/// The list-page image of a row collection.
pub open spec fn detail_map(rows: Seq<MovieView>) -> Seq<ListDetailView> {
    rows.map_values(|m: MovieView| detail_of(m))
}

/// The messages the name rules produce, in declaration order.
pub open spec fn name_msgs(name: Seq<char>) -> Seq<Seq<char>> {
    if name.len() == 0 {
        seq!["name is required"@]
    } else if name.len() > 10 {
        seq!["name must be at most 10 characters"@]
    } else {
        Seq::empty()
    }
}

/// The messages the description rules produce, in declaration order.
pub open spec fn description_msgs(desc: Seq<char>) -> Seq<Seq<char>> {
    if desc.len() == 0 {
        seq!["description is required"@]
    } else if desc.len() > 100 {
        seq!["description must be at most 100 characters"@]
    } else {
        Seq::empty()
    }
}

/// All messages a submitted form produces: name rules first, then
/// description rules.
pub open spec fn edit_messages(m: EditModel) -> Seq<Seq<char>> {
    name_msgs(m.name@) + description_msgs(m.description@)
}

/// A form passes validation when the name has one to ten characters and
/// the description one to a hundred. The status is not validated: unknown
/// codes pass through display unchanged.
pub open spec fn edit_valid(m: EditModel) -> bool {
    &&& 1 <= m.name@.len() <= 10
    &&& 1 <= m.description@.len() <= 100
}

/// A name of length zero, or of more than ten characters, fails validation
/// with at least one message, so the record is never persisted.
pub proof fn lemma_bad_name_rejected(m: EditModel)
    requires
        m.name@.len() == 0 || m.name@.len() > 10,
    ensures
        !edit_valid(m),
        edit_messages(m).len() > 0,
{
}

/// A description of length zero, or of more than a hundred characters,
/// fails validation with at least one message, so the record is never
/// persisted.
pub proof fn lemma_bad_description_rejected(m: EditModel)
    requires
        m.description@.len() == 0 || m.description@.len() > 100,
    ensures
        !edit_valid(m),
        edit_messages(m).len() > 0,
{
}

/// Checks a submitted form; a failing form comes back as the page to
/// re-render, carrying the submitted values and every violated rule's
/// message in field-then-rule order.
pub fn validate_edit_model(edit_model: &EditModel, id: &String, action: String) -> (r: Option<
    EditPage,
>)
    ensures
        (r is None) == edit_valid(*edit_model),
        r matches Some(page) ==> {
            &&& page.action@ == action@
            &&& page.message.deep_view() == edit_messages(*edit_model)
            &&& page.movie.id@ == id@
            &&& page.movie.name@ == edit_model.name@
            &&& page.movie.status@ == edit_model.status@
            &&& page.movie.description@ == edit_model.description@
        },
{
    let name_len = edit_model.name.as_str().unicode_len();
    let desc_len = edit_model.description.as_str().unicode_len();
    let mut message: Vec<String> = Vec::new();
    if name_len == 0 {
        message.push(String::from_str("name is required"));
    } else if name_len > 10 {
        message.push(String::from_str("name must be at most 10 characters"));
    }
    proof {
        assert(message.deep_view() =~= name_msgs(edit_model.name@));
    }
    let ghost with_name_msgs = message;
    if desc_len == 0 {
        message.push(String::from_str("description is required"));
    } else if desc_len > 100 {
        message.push(String::from_str("description must be at most 100 characters"));
    }
    proof {
        assert forall|j: int| 0 <= j < message.deep_view().len() implies message.deep_view()[j]
            == edit_messages(*edit_model)[j] by {
            if j < with_name_msgs.deep_view().len() {
                assert(message@[j] == with_name_msgs@[j]);
                assert(with_name_msgs.deep_view()[j] == with_name_msgs@[j].deep_view());
            }
            assert(message.deep_view()[j] == message@[j].deep_view());
        }
        assert(message.deep_view() =~= edit_messages(*edit_model));
    }
    if message.len() == 0 {
        None
    } else {
        Some(
            EditPage {
                action,
                message,
                movie: EditModel {
                    id: id.clone(),
                    name: edit_model.name.clone(),
                    status: edit_model.status.clone(),
                    description: edit_model.description.clone(),
                },
            },
        )
    }
}

fn detail_row(m: &Movie) -> (r: MovieListDetail)
    requires
        m@.id is Some,
    ensures
        r@ == detail_of(m@),
{
    let id = m.id.unwrap();
    let name = match &m.name {
        Some(s) => s.clone(),
        None => String::new(),
    };
    let code = match &m.status {
        Some(s) => s.clone(),
        None => String::new(),
    };
    let status = Status::to_status_string(code);
    MovieListDetail { id, name, status }
}

fn detail_rows(rows: &Vec<Movie>) -> (r: Vec<MovieListDetail>)
    requires
        forall|i: int| 0 <= i < rows.deep_view().len() ==> (#[trigger] rows.deep_view()[i]).id
            is Some,
    ensures
        r.deep_view() == detail_map(rows.deep_view()),
{
    let mut out: Vec<MovieListDetail> = Vec::new();
    let n = rows.len();
    let mut i: usize = 0;
    while i < n
        invariant
            n == rows.len(),
            i <= n,
            out@.len() == i,
            forall|j: int| 0 <= j < n ==> (#[trigger] rows.deep_view()[j]).id is Some,
            forall|j: int| 0 <= j < i ==> out.deep_view()[j] == detail_of(rows.deep_view()[j]),
        decreases n - i,
    {
        proof {
            assert(rows.deep_view()[i as int] == rows@[i as int]@);
        }
        let d = detail_row(&rows[i]);
        let ghost out0 = out;
        out.push(d);
        proof {
            assert forall|j: int| 0 <= j < i as int + 1 implies out.deep_view()[j] == detail_of(
                rows.deep_view()[j],
            ) by {
                if j < i as int {
                    assert(out@[j] == out0@[j]);
                    assert(out0.deep_view()[j] == out0@[j].deep_view());
                } else {
                    assert(out@[j] == d);
                }
                assert(out.deep_view()[j] == out@[j].deep_view());
            }
        }
        i += 1;
    }
    proof {
        assert(out.deep_view() =~= detail_map(rows.deep_view()));
    }
    out
}

/// The whole table as list rows, in ascending id order.
pub fn all_list(table: &MovieTable) -> (r: Vec<MovieListDetail>)
    requires
        table.wf(),
    ensures
        r.deep_view() == detail_map(table@),
{
    let list = movie_repo::find_all(table);
    proof {
        lemma_wf_rows(*table);
        assert forall|i: int| 0 <= i < list.deep_view().len() implies (
        #[trigger] list.deep_view()[i]).id is Some by {
            assert(list.deep_view()[i] == table@[i]);
            assert(row_wf(table@[i]));
        }
    }
    detail_rows(&list)
}

/// The rows whose name starts with the submitted prefix, as list rows, in
/// ascending id order. An empty prefix matches every row.
pub fn search(table: &MovieTable, list_model: ListModel) -> (r: Vec<MovieListDetail>)
    requires
        table.wf(),
    ensures
        r.deep_view() == detail_map(table@.filter(prefix_pred(list_model.name@))),
{
    let list = movie_repo::find_by_name(table, list_model.name);
    detail_rows(&list)
}

/// The empty add form: no messages, no values, status defaulted to the
/// not-yet-released code.
pub fn add() -> (r: EditPage)
    ensures
        r.action@ == "A"@,
        r.message.deep_view() == Seq::<Seq<char>>::empty(),
        r.movie.id@.len() == 0,
        r.movie.name@.len() == 0,
        r.movie.status@ == "0"@,
        r.movie.description@.len() == 0,
{
    let page = EditPage {
        action: String::from_str("A"),
        message: Vec::new(),
        movie: EditModel {
            id: String::new(),
            name: String::new(),
            status: String::from_str("0"),
            description: String::new(),
        },
    };
    proof {
        assert(page.message.deep_view() =~= Seq::<Seq<char>>::empty());
    }
    page
}

/// The row the store keeps for a submitted form inserted now under `id`.
pub open spec fn submitted_row(m: EditModel, id: i32, now: u64) -> MovieView {
    MovieView {
        id: Some(id),
        name: Some(m.name@),
        status: Some(m.status@),
        description: Some(m.description@),
        created_at: Some(now),
        updated_at: None,
    }
}

/// The overwrite a submitted form requests for the row `id` updated now.
pub open spec fn update_request(m: EditModel, id: i32, now: u64) -> MovieView {
    MovieView {
        id: Some(id),
        name: Some(m.name@),
        status: Some(m.status@),
        description: Some(m.description@),
        created_at: None,
        updated_at: Some(now),
    }
}

/// The response is the re-rendered form for a failed submission: the
/// submitted values under the given id and action, with every message.
pub open spec fn is_invalid_form(
    r: PageResponse,
    m: EditModel,
    id: Seq<char>,
    action: Seq<char>,
) -> bool {
    match r {
        PageResponse::EditForm(page) => {
            &&& page.action@ == action
            &&& page.message.deep_view() == edit_messages(m)
            &&& page.movie.id@ == id
            &&& page.movie.name@ == m.name@
            &&& page.movie.status@ == m.status@
            &&& page.movie.description@ == m.description@
        },
        _ => false,
    }
}

/// Round trip: once a submitted form is stored under a fresh id, fetching
/// that id gives back a row holding exactly the submitted name, status and
/// description, `now` as its insertion time, and no update time.
pub proof fn lemma_insert_round_trip(rows: Seq<MovieView>, m: EditModel, id: i32, now: u64)
    requires
        forall|i: int| 0 <= i < rows.len() ==> (#[trigger] rows[i]).id != Some(id),
    ensures
        find_row(rows.push(submitted_row(m, id, now)), id) == Some(submitted_row(m, id, now)),
        submitted_row(m, id, now).name == Some(m.name@),
        submitted_row(m, id, now).status == Some(m.status@),
        submitted_row(m, id, now).description == Some(m.description@),
        submitted_row(m, id, now).created_at == Some(now),
        submitted_row(m, id, now).updated_at == None::<u64>,
{
    crate::movie_repo::lemma_insert_then_find(rows, submitted_row(m, id, now));
}

/// Creates a movie from a submitted form: a valid form is stored under the
/// next id with `now` as its insertion time and the caller is sent back to
/// the list; an invalid form is re-rendered with its messages and nothing
/// is persisted.
pub fn insert(table: &mut MovieTable, edit_model: EditModel, now: u64) -> (r: PageResponse)
    requires
        old(table).wf(),
        old(table).can_assign_id(),
    ensures
        final(table).wf(),
        edit_valid(edit_model) ==> r == PageResponse::RedirectToList && final(table)@ == old(
            table,
        )@.push(submitted_row(edit_model, old(table).spec_next_id() as i32, now)),
        !edit_valid(edit_model) ==> final(table)@ == old(table)@ && is_invalid_form(
            r,
            edit_model,
            Seq::empty(),
            "A"@,
        ),
{
    let empty_id = String::new();
    match validate_edit_model(&edit_model, &empty_id, String::from_str("A")) {
        Some(page) => {
            return PageResponse::EditForm(page);
        },
        None => {},
    }
    let movie = Movie {
        id: None,
        name: Some(edit_model.name),
        status: Some(edit_model.status),
        description: Some(edit_model.description),
        created_at: Some(now),
        updated_at: None,
    };
    movie_repo::insert(table, movie);
    PageResponse::RedirectToList
}

/// Updates a movie from a submitted form: an invalid form is re-rendered
/// and nothing changes; a malformed id gives the error page; otherwise the
/// row holding the id is overwritten with `now` as its update time (a
/// missing id changes nothing) and the caller is sent back to the list.
pub fn update(table: &mut MovieTable, id: String, edit_model: EditModel, now: u64) -> (r:
    PageResponse)
    requires
        old(table).wf(),
    ensures
        final(table).wf(),
        !edit_valid(edit_model) ==> final(table)@ == old(table)@ && is_invalid_form(
            r,
            edit_model,
            id@,
            "E"@,
        ),
        edit_valid(edit_model) && parse_i32_spec(id@) is None ==> final(table)@ == old(table)@ && r
            == PageResponse::ErrorPage,
        edit_valid(edit_model) ==> (parse_i32_spec(id@) matches Some(n) ==> r
            == PageResponse::RedirectToList && final(table)@ == updated_rows(
            old(table)@,
            update_request(edit_model, n, now),
        )),
{
    match validate_edit_model(&edit_model, &id, String::from_str("E")) {
        Some(page) => {
            return PageResponse::EditForm(page);
        },
        None => {},
    }
    match parse_i32(id.as_str()) {
        Some(n) => {
            let movie = Movie {
                id: Some(n),
                name: Some(edit_model.name),
                status: Some(edit_model.status),
                description: Some(edit_model.description),
                created_at: None,
                updated_at: Some(now),
            };
            movie_repo::update(table, movie);
            PageResponse::RedirectToList
        },
        None => PageResponse::ErrorPage,
    }
}

/// Deletes the movie named by the id text: a malformed id or a missing row
/// reports not-found, a removed row reports success.
pub fn delete(table: &mut MovieTable, id: String) -> (r: DeleteResponse)
    requires
        old(table).wf(),
    ensures
        final(table).wf(),
        parse_i32_spec(id@) is None ==> final(table)@ == old(table)@ && r
            == DeleteResponse::NotFound,
        parse_i32_spec(id@) matches Some(n) ==> final(table)@ == delete_rows(old(table)@, n) && r
            == (if delete_count(old(table)@, n) > 0 {
            DeleteResponse::Deleted
        } else {
            DeleteResponse::NotFound
        }),
{
    match parse_i32(id.as_str()) {
        Some(n) => {
            if movie_repo::delete(table, n) > 0 {
                DeleteResponse::Deleted
            } else {
                DeleteResponse::NotFound
            }
        },
        None => DeleteResponse::NotFound,
    }
}

/// The response is the edit form pre-filled with the stored row, with no
/// messages.
pub open spec fn is_edit_form_of(r: PageResponse, row: MovieView) -> bool {
    match r {
        PageResponse::EditForm(page) => {
            &&& page.action@ == "E"@
            &&& page.message.deep_view() == Seq::<Seq<char>>::empty()
            &&& page.movie.id@ == i32_decimal(row.id.unwrap() as int)
            &&& page.movie.name@ == row.name.unwrap()
            &&& page.movie.status@ == row.status.unwrap()
            &&& page.movie.description@ == row.description.unwrap()
        },
        _ => false,
    }
}

/// Shows the edit form for the id text: a malformed id or a missing row
/// gives the not-found page, a stored row gives the form pre-filled with
/// its values.
pub fn edit(table: &MovieTable, id: String) -> (r: PageResponse)
    requires
        table.wf(),
    ensures
        parse_i32_spec(id@) is None ==> r == PageResponse::NotFoundPage,
        parse_i32_spec(id@) matches Some(n) ==> match find_row(table@, n) {
            Some(row) => is_edit_form_of(r, row),
            None => r == PageResponse::NotFoundPage,
        },
{
    match parse_i32(id.as_str()) {
        Some(n) => {
            proof {
                lemma_find_index_in_range(table@, n);
                lemma_wf_rows(*table);
            }
            match movie_repo::find_by_id(table, n) {
                Some(movie) => {
                    let page = EditPage {
                        action: String::from_str("E"),
                        message: Vec::new(),
                        movie: EditModel {
                            id: i32_to_string(movie.id.unwrap()),
                            name: movie.name.unwrap(),
                            status: movie.status.unwrap(),
                            description: movie.description.unwrap(),
                        },
                    };
                    proof {
                        assert(page.message.deep_view() =~= Seq::<Seq<char>>::empty());
                    }
                    PageResponse::EditForm(page)
                },
                None => PageResponse::NotFoundPage,
            }
        },
        None => PageResponse::NotFoundPage,
    }
}

} // verus!
