//! Statements for the database: SQL text and the values bound to it.
use vstd::prelude::*;
use vstd::string::*;

use crate::model::{ChapterId, MangaId};
use crate::text::{copy_text, optional_text, repeat_separated, repeated};

verus! {

/// A value bound to a placeholder of a statement.
#[derive(Clone, Debug, PartialEq, Eq)]
pub enum Bind {
    Text(String),
    OptionalText(Option<String>),
    Integer(i64),
    OptionalInteger(Option<i64>),
    Boolean(bool),
    /// A real number, in the decimal text that stands for it.
    OptionalNumber(Option<String>),
}

/// What a bound value holds.
pub enum BindView {
    Text(Seq<char>),
    OptionalText(Option<Seq<char>>),
    Integer(i64),
    OptionalInteger(Option<i64>),
    Boolean(bool),
    OptionalNumber(Option<Seq<char>>),
}

impl View for Bind {
    type V = BindView;

    open spec fn view(&self) -> BindView {
        match *self {
            Bind::Text(t) => BindView::Text(t@),
            Bind::OptionalText(t) => BindView::OptionalText(optional_text(t)),
            Bind::Integer(v) => BindView::Integer(v),
            Bind::OptionalInteger(v) => BindView::OptionalInteger(v),
            Bind::Boolean(v) => BindView::Boolean(v),
            Bind::OptionalNumber(t) => BindView::OptionalNumber(optional_text(t)),
        }
    }
}

/// What a list of bound values holds.
pub open spec fn bind_views(binds: Seq<Bind>) -> Seq<BindView> {
    binds.map_values(|b: Bind| b@)
}

/// A statement: its text, and the values for its placeholders in order.
#[derive(Clone, Debug, PartialEq, Eq)]
pub struct Statement {
    pub sql: String,
    pub binds: Vec<Bind>,
}

impl View for Statement {
    type V = (Seq<char>, Seq<BindView>);

    open spec fn view(&self) -> (Seq<char>, Seq<BindView>) {
        (self.sql@, bind_views(self.binds@))
    }
}

/// What a list of statements asks.
pub open spec fn statement_views(list: Seq<Statement>) -> Seq<(Seq<char>, Seq<BindView>)> {
    list.map_values(|s: Statement| s@)
}

impl Statement {
    /// Whether a statement has this text and these values.
    pub open spec fn is(self, sql: Seq<char>, binds: Seq<BindView>) -> bool {
        self@ == (sql, binds)
    }
}

/// A statement of fixed text.
pub(crate) fn statement(sql: &str, binds: Vec<Bind>) -> (r: Statement)
    ensures
        r.is(sql@, bind_views(binds@)),
{
    Statement { sql: sql.to_owned(), binds }
}

/// Puts a value behind the others.
fn bind(binds: &mut Vec<Bind>, value: Bind)
    ensures
        bind_views(final(binds)@) == bind_views(old(binds)@).push(value@),
{
    binds.push(value);
    assert(bind_views(binds@) =~= bind_views(old(binds)@).push(value@));
}

/// Binds a text.
pub(crate) fn bind_text(binds: &mut Vec<Bind>, value: &str)
    ensures
        bind_views(final(binds)@) == bind_views(old(binds)@).push(BindView::Text(value@)),
{
    bind(binds, Bind::Text(value.to_owned()));
}

/// Binds a text that may be absent.
pub(crate) fn bind_optional_text(binds: &mut Vec<Bind>, value: &Option<String>)
    ensures
        bind_views(final(binds)@) == bind_views(old(binds)@).push(
            BindView::OptionalText(optional_text(*value)),
        ),
{
    bind(binds, Bind::OptionalText(copy_text(value)));
}

/// Binds an integer.
pub(crate) fn bind_integer(binds: &mut Vec<Bind>, value: i64)
    ensures
        bind_views(final(binds)@) == bind_views(old(binds)@).push(BindView::Integer(value)),
{
    bind(binds, Bind::Integer(value));
}

/// Binds an integer that may be absent.
pub(crate) fn bind_optional_integer(binds: &mut Vec<Bind>, value: Option<i64>)
    ensures
        bind_views(final(binds)@) == bind_views(old(binds)@).push(BindView::OptionalInteger(value)),
{
    bind(binds, Bind::OptionalInteger(value));
}

/// Binds a truth value.
pub(crate) fn bind_boolean(binds: &mut Vec<Bind>, value: bool)
    ensures
        bind_views(final(binds)@) == bind_views(old(binds)@).push(BindView::Boolean(value)),
{
    bind(binds, Bind::Boolean(value));
}

/// Binds a real number that may be absent.
pub(crate) fn bind_optional_number(binds: &mut Vec<Bind>, value: &Option<String>)
    ensures
        bind_views(final(binds)@) == bind_views(old(binds)@).push(
            BindView::OptionalNumber(optional_text(*value)),
        ),
{
    bind(binds, Bind::OptionalNumber(copy_text(value)));
}

/// A list of no values.
pub(crate) fn no_binds() -> (r: Vec<Bind>)
    ensures
        bind_views(r@) == Seq::<BindView>::empty(),
{
    let r: Vec<Bind> = Vec::new();
    assert(bind_views(r@) =~= Seq::<BindView>::empty());
    r
}

/// The values that stand for a manga.
pub open spec fn manga_binds(id: (Seq<char>, Seq<char>)) -> Seq<BindView> {
    seq![BindView::Text(id.0), BindView::Text(id.1)]
}

/// The values that stand for a chapter.
pub open spec fn chapter_binds(id: (Seq<char>, Seq<char>, Seq<char>)) -> Seq<BindView> {
    seq![BindView::Text(id.0), BindView::Text(id.1), BindView::Text(id.2)]
}

/// Binds the id of a manga.
pub(crate) fn bind_manga(binds: &mut Vec<Bind>, id: &MangaId)
    ensures
        bind_views(final(binds)@) == bind_views(old(binds)@) + manga_binds(id@),
{
    bind_text(binds, id.source_id().value().as_str());
    bind_text(binds, id.value().as_str());
    assert(bind_views(binds@) =~= bind_views(old(binds)@) + manga_binds(id@));
}

/// Binds the id of a chapter.
pub(crate) fn bind_chapter(binds: &mut Vec<Bind>, id: &ChapterId)
    ensures
        bind_views(final(binds)@) == bind_views(old(binds)@) + chapter_binds(id@),
{
    bind_text(binds, id.source_id().value().as_str());
    bind_text(binds, id.manga_id().value().as_str());
    bind_text(binds, id.value().as_str());
    assert(bind_views(binds@) =~= bind_views(old(binds)@) + chapter_binds(id@));
}

/// A statement of fixed text about a manga.
pub(crate) fn manga_statement(sql: &str, id: &MangaId) -> (r: Statement)
    ensures
        r.is(sql@, manga_binds(id@)),
{
    let mut binds = no_binds();
    bind_manga(&mut binds, id);
    assert(bind_views(binds@) =~= manga_binds(id@));
    statement(sql, binds)
}

/// A statement of fixed text about a chapter.
pub(crate) fn chapter_statement(sql: &str, id: &ChapterId) -> (r: Statement)
    ensures
        r.is(sql@, chapter_binds(id@)),
{
    let mut binds = no_binds();
    bind_chapter(&mut binds, id);
    assert(bind_views(binds@) =~= chapter_binds(id@));
    statement(sql, binds)
}

/// How many placeholders a text holds.
pub open spec fn placeholders(s: Seq<char>) -> nat
    decreases s.len(),
{
    if s.len() == 0 {
        0
    } else {
        placeholders(s.drop_last()) + (if s.last() == '?' { 1nat } else { 0 })
    }
}

/// One row of placeholders in brackets.
pub open spec fn placeholder_row(columns: nat) -> Seq<char> {
    "("@ + repeated("?"@, ", "@, columns) + ")"@
}

/// Rows of placeholders in brackets, separated by commas.
pub open spec fn placeholder_rows(rows: nat, columns: nat) -> Seq<char> {
    repeated(placeholder_row(columns), ", "@, rows)
}

/// Writes rows of placeholders.
pub fn write_placeholder_rows(rows: usize, columns: usize) -> (r: String)
    ensures
        r@ == placeholder_rows(rows as nat, columns as nat),
{
    let marks = repeat_separated("?", ", ", columns);
    let row = crate::text::concat3("(", marks.as_str(), ")");
    repeat_separated(row.as_str(), ", ", rows)
}

proof fn lemma_placeholders_add(a: Seq<char>, b: Seq<char>)
    ensures
        placeholders(a + b) == placeholders(a) + placeholders(b),
    decreases b.len(),
{
    if b.len() == 0 {
        assert(a + b =~= a);
    } else {
        assert((a + b).drop_last() =~= a + b.drop_last());
        lemma_placeholders_add(a, b.drop_last());
    }
}

proof fn lemma_placeholders_repeated(item: Seq<char>, separator: Seq<char>, n: nat)
    requires
        placeholders(separator) == 0,
    ensures
        placeholders(repeated(item, separator, n)) == n * placeholders(item),
    decreases n,
{
    if n >= 2 {
        let m = (n - 1) as nat;
        lemma_placeholders_repeated(item, separator, m);
        lemma_placeholders_add(repeated(item, separator, m), separator);
        lemma_placeholders_add(repeated(item, separator, m) + separator, item);
    }
    let k = placeholders(item);
    assert(n == 0 ==> n * k == 0) by (nonlinear_arith);
    assert(n == 1 ==> n * k == k) by (nonlinear_arith);
    assert(n >= 2 ==> n * k == (n - 1) * k + k) by (nonlinear_arith);
}

/// Rows of placeholders hold one placeholder for each column of each row.
pub proof fn lemma_placeholder_rows_count(rows: nat, columns: nat)
    ensures
        placeholders(placeholder_rows(rows, columns)) == rows * columns,
{
    reveal_strlit("(");
    reveal_strlit(")");
    reveal_strlit("?");
    reveal_strlit(", ");
    reveal_with_fuel(placeholders, 3);
    assert(placeholders("?"@) == 1);
    assert(placeholders(", "@) == 0);
    assert(placeholders("("@) == 0);
    assert(placeholders(")"@) == 0);
    lemma_placeholders_repeated("?"@, ", "@, columns);
    lemma_placeholders_add("("@, repeated("?"@, ", "@, columns));
    lemma_placeholders_add("("@ + repeated("?"@, ", "@, columns), ")"@);
    lemma_placeholders_repeated(placeholder_row(columns), ", "@, rows);
}

/// A manga is named by its source and then by its id there, and a chapter by its source,
/// its manga and then its own id.
pub proof fn lemma_ids_are_bound_in_order(
    manga: (Seq<char>, Seq<char>),
    chapter: (Seq<char>, Seq<char>, Seq<char>),
)
    ensures
        manga_binds(manga).len() == 2,
        manga_binds(manga)[0] == BindView::Text(manga.0),
        manga_binds(manga)[1] == BindView::Text(manga.1),
        chapter_binds(chapter).len() == 3,
        chapter_binds(chapter)[0] == BindView::Text(chapter.0),
        chapter_binds(chapter)[1] == BindView::Text(chapter.1),
        chapter_binds(chapter)[2] == BindView::Text(chapter.2),
{
}

/// Mangas that are not the same are bound otherwise, and so are chapters.
pub proof fn lemma_ids_are_told_apart(
    a: (Seq<char>, Seq<char>),
    b: (Seq<char>, Seq<char>),
    c: (Seq<char>, Seq<char>, Seq<char>),
    d: (Seq<char>, Seq<char>, Seq<char>),
)
    ensures
        manga_binds(a) == manga_binds(b) <==> a == b,
        chapter_binds(c) == chapter_binds(d) <==> c == d,
{
    assert(manga_binds(a)[0] == BindView::Text(a.0) && manga_binds(a)[1] == BindView::Text(a.1));
    assert(manga_binds(b)[0] == BindView::Text(b.0) && manga_binds(b)[1] == BindView::Text(b.1));
    assert(chapter_binds(c)[0] == BindView::Text(c.0) && chapter_binds(c)[1] == BindView::Text(c.1)
        && chapter_binds(c)[2] == BindView::Text(c.2));
    assert(chapter_binds(d)[0] == BindView::Text(d.0) && chapter_binds(d)[1] == BindView::Text(d.1)
        && chapter_binds(d)[2] == BindView::Text(d.2));
}

/// A list of placeholders holds as many as it is long, beside those around it.
pub proof fn lemma_list_placeholders(head: Seq<char>, tail: Seq<char>, n: nat)
    ensures
        placeholders(head + repeated("?"@, ","@, n) + tail) == placeholders(head) + n
            + placeholders(tail),
{
    reveal_strlit("?");
    reveal_strlit(",");
    reveal_with_fuel(placeholders, 2);
    assert(placeholders("?"@) == 1);
    assert(placeholders(","@) == 0);
    lemma_placeholders_repeated("?"@, ","@, n);
    lemma_placeholders_add(head, repeated("?"@, ","@, n));
    lemma_placeholders_add(head + repeated("?"@, ","@, n), tail);
}

/// A text without a question mark holds no placeholder.
pub proof fn lemma_no_placeholder(s: Seq<char>)
    requires
        !s.contains('?'),
    ensures
        placeholders(s) == 0,
    decreases s.len(),
{
    if s.len() > 0 {
        let front = s.drop_last();
        assert(s.contains(s[s.len() - 1]));
        assert forall|i: int| 0 <= i < front.len() implies front[i] != '?' by {
            assert(s.contains(s[i]));
        }
        lemma_no_placeholder(front);
    }
}

}
