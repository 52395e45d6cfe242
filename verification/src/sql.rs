//! SQL statements with bound parameters, in the dialects of the two databases.
use vstd::prelude::*;
use vstd::string::StringExecFns;

use crate::text::decimal;
use crate::text::decimal_text;
use crate::text::lemma_decimal_digits;

verus! {

/// The database that a statement is for.
#[derive(Clone, Copy, PartialEq, Eq, Structural)]
pub enum Dialect {
    Sqlite,
    Postgres,
}

/// A value bound to a placeholder.
pub enum Bind {
    Int(i64),
    Small(i32),
    Flag(bool),
    Text(String),
}

/// The model of a `Bind`.
#[verifier::ext_equal]
pub enum BindView {
    Int(i64),
    Small(i32),
    Flag(bool),
    Text(Seq<char>),
}

impl View for Bind {
    type V = BindView;

    open spec fn view(&self) -> BindView {
        match *self {
            Bind::Int(n) => BindView::Int(n),
            Bind::Small(n) => BindView::Small(n),
            Bind::Flag(b) => BindView::Flag(b),
            Bind::Text(s) => BindView::Text(s@),
        }
    }
}

/// The text of a statement and the values for its placeholders, in order.
pub struct Statement {
    pub sql: String,
    pub binds: Vec<Bind>,
}

/// The model of a `Statement`.
#[verifier::ext_equal]
pub struct StatementView {
    pub sql: Seq<char>,
    pub binds: Seq<BindView>,
}

impl View for Statement {
    type V = StatementView;

    open spec fn view(&self) -> StatementView {
        StatementView { sql: self.sql@, binds: self.binds@.map_values(|b: Bind| b@) }
    }
}

/// A statement is made of pieces: fixed text and parameters.
#[verifier::ext_equal]
pub enum Piece {
    Fixed(Seq<char>),
    Param(BindView),
}

/// How the `k`-th parameter of a statement is written, counted from one.
pub open spec fn placeholder(dialect: Dialect, k: nat) -> Seq<char> {
    match dialect {
        Dialect::Sqlite => "?"@,
        Dialect::Postgres => "$"@ + decimal(k),
    }
}

/// `statement` with one more piece.
pub open spec fn extended(dialect: Dialect, statement: StatementView, piece: Piece) -> StatementView {
    match piece {
        Piece::Fixed(text) => StatementView { sql: statement.sql + text, ..statement },
        Piece::Param(bind) => StatementView {
            sql: statement.sql + placeholder(dialect, statement.binds.len() + 1),
            binds: statement.binds.push(bind),
        },
    }
}

/// The statement made of `pieces`: each parameter becomes the next placeholder and its value
/// the next bound value.
pub open spec fn assembled(dialect: Dialect, pieces: Seq<Piece>) -> StatementView
    decreases pieces.len(),
{
    if pieces.len() == 0 {
        StatementView { sql: Seq::empty(), binds: Seq::empty() }
    } else {
        extended(dialect, assembled(dialect, pieces.drop_last()), pieces.last())
    }
}

/// A statement under construction.
pub(crate) struct Builder {
    dialect: Dialect,
    statement: Statement,
    pieces: Ghost<Seq<Piece>>,
}

impl Builder {
    /// The dialect of the statement.
    pub closed spec fn dialect(self) -> Dialect {
        self.dialect
    }

    /// The pieces so far.
    pub closed spec fn pieces(self) -> Seq<Piece> {
        self.pieces@
    }

    /// The statement is made of the pieces.
    pub closed spec fn wf(self) -> bool {
        self.statement@ == assembled(self.dialect, self.pieces@)
    }

    /// An empty statement.
    pub(crate) fn new(dialect: Dialect) -> (builder: Builder)
        ensures
            builder.wf(),
            builder.dialect() == dialect,
            builder.pieces() == Seq::<Piece>::empty(),
    {
        let statement = Statement { sql: String::new(), binds: Vec::new() };
        assert(statement@.binds == Seq::<BindView>::empty());
        Builder { dialect, statement, pieces: Ghost(Seq::empty()) }
    }

    /// Adds fixed text.
    pub(crate) fn fixed(self, text: &str) -> (builder: Builder)
        requires
            self.wf(),
        ensures
            builder.wf(),
            builder.dialect() == self.dialect(),
            builder.pieces() == self.pieces().push(Piece::Fixed(text@)),
    {
        let Statement { sql, binds } = self.statement;
        let statement = Statement { sql: sql.concat(text), binds };
        let ghost pieces = self.pieces@.push(Piece::Fixed(text@));
        assert(pieces.drop_last() =~= self.pieces@);
        Builder { dialect: self.dialect, statement, pieces: Ghost(pieces) }
    }

    /// Adds a parameter.
    pub(crate) fn param(self, bind: Bind) -> (builder: Builder)
        requires
            self.wf(),
        ensures
            builder.wf(),
            builder.dialect() == self.dialect(),
            builder.pieces() == self.pieces().push(Piece::Param(bind@)),
    {
        let Statement { sql, binds } = self.statement;
        let ghost before = binds@;
        let mut binds: Vec<Bind> = binds;
        let mark = match self.dialect {
            Dialect::Sqlite => "?".to_owned(),
            Dialect::Postgres => {
                let k: u128 = binds.len() as u128 + 1;
                "$".to_owned().concat(decimal_text(k).as_str())
            },
        };
        binds.push(bind);
        let statement = Statement { sql: sql.concat(mark.as_str()), binds };
        let ghost pieces = self.pieces@.push(Piece::Param(bind@));
        proof {
            assert(pieces.drop_last() =~= self.pieces@);
            assert(statement@.binds == before.map_values(|b: Bind| b@).push(bind@));
        }
        Builder { dialect: self.dialect, statement, pieces: Ghost(pieces) }
    }

    /// The statement.
    pub(crate) fn build(self) -> (statement: Statement)
        requires
            self.wf(),
        ensures
            statement@ == assembled(self.dialect(), self.pieces()),
    {
        self.statement
    }
}

/// The values of the parameters among `pieces`, in order.
pub open spec fn params(pieces: Seq<Piece>) -> Seq<BindView>
    decreases pieces.len(),
{
    if pieces.len() == 0 {
        seq![]
    } else {
        match pieces.last() {
            Piece::Fixed(_) => params(pieces.drop_last()),
            Piece::Param(bind) => params(pieces.drop_last()).push(bind),
        }
    }
}

/// A fixed text adds no parameter, a parameter adds its value.
pub proof fn lemma_params_push(pieces: Seq<Piece>, piece: Piece)
    ensures
        params(pieces.push(piece)) == match piece {
            Piece::Fixed(_) => params(pieces),
            Piece::Param(bind) => params(pieces).push(bind),
        },
{
    assert(pieces.push(piece).drop_last() =~= pieces);
}

/// The parameters of fixed text, one parameter and fixed text.
pub proof fn lemma_params_one(pieces: Seq<Piece>, k: int, bind: BindView)
    requires
        0 <= k < pieces.len(),
        pieces[k] == Piece::Param(bind),
        forall|i: int| 0 <= i < pieces.len() && i != k ==> #[trigger] pieces[i] is Fixed,
    ensures
        params(pieces) == seq![bind],
    decreases pieces.len(),
{
    let before = pieces.drop_last();
    assert(before.push(pieces.last()) =~= pieces);
    lemma_params_push(before, pieces.last());
    if k == pieces.len() - 1 {
        lemma_params_none(before);
        assert(params(before).push(bind) =~= seq![bind]);
    } else {
        lemma_params_one(before, k, bind);
    }
}

/// Fixed text has no parameters.
pub proof fn lemma_params_none(pieces: Seq<Piece>)
    requires
        forall|i: int| 0 <= i < pieces.len() ==> #[trigger] pieces[i] is Fixed,
    ensures
        params(pieces) == Seq::<BindView>::empty(),
    decreases pieces.len(),
{
    if pieces.len() > 0 {
        lemma_params_none(pieces.drop_last());
    }
}

/// A statement binds its parameters in the order in which they stand in it, whatever the
/// dialect.
pub proof fn law_values_are_bound_in_order(dialect: Dialect, pieces: Seq<Piece>)
    ensures
        assembled(dialect, pieces).binds == params(pieces),
    decreases pieces.len(),
{
    if pieces.len() > 0 {
        law_values_are_bound_in_order(dialect, pieces.drop_last());
    }
}

/// The same fixed texts and parameters in the same places, with any values.
pub open spec fn same_shape(a: Seq<Piece>, b: Seq<Piece>) -> bool {
    &&& a.len() == b.len()
    &&& forall|i: int|
        #![trigger a[i]]
        #![trigger b[i]]
        0 <= i < a.len() ==> match a[i] {
            Piece::Fixed(text) => b[i] == Piece::Fixed(text),
            Piece::Param(_) => b[i] is Param,
        }
}

/// No value of a parameter reaches the text of a statement: it depends on the fixed texts
/// and the places of the parameters alone.
pub proof fn law_values_stay_out_of_the_text(dialect: Dialect, a: Seq<Piece>, b: Seq<Piece>)
    requires
        same_shape(a, b),
    ensures
        assembled(dialect, a).sql == assembled(dialect, b).sql,
        assembled(dialect, a).binds.len() == assembled(dialect, b).binds.len(),
    decreases a.len(),
{
    if a.len() > 0 {
        assert(same_shape(a.drop_last(), b.drop_last())) by {
            assert forall|i: int|
                #![trigger a.drop_last()[i]]
                #![trigger b.drop_last()[i]]
                0 <= i < a.len() - 1 implies match a.drop_last()[i] {
                Piece::Fixed(text) => b.drop_last()[i] == Piece::Fixed(text),
                Piece::Param(_) => b.drop_last()[i] is Param,
            } by {
                assert(a.drop_last()[i] == a[i]);
            }
        }
        law_values_stay_out_of_the_text(dialect, a.drop_last(), b.drop_last());
        assert(a.last() == a[a.len() - 1]);
    }
}

/// The number of times that `c` stands in `text`.
pub open spec fn occurrences(text: Seq<char>, c: char) -> nat
    decreases text.len(),
{
    if text.len() == 0 {
        0
    } else {
        occurrences(text.drop_last(), c) + if text.last() == c {
            1nat
        } else {
            0
        }
    }
}

/// The character that a placeholder starts with.
pub open spec fn mark(dialect: Dialect) -> char {
    match dialect {
        Dialect::Sqlite => '?',
        Dialect::Postgres => '$',
    }
}

/// The text holds neither mark of a placeholder.
pub open spec fn unmarked(text: Seq<char>) -> bool {
    forall|i: int| 0 <= i < text.len() ==> #[trigger] text[i] != '?' && text[i] != '$'
}

/// No fixed text holds a mark of a placeholder.
pub open spec fn clean(pieces: Seq<Piece>) -> bool {
    forall|i: int|
        0 <= i < pieces.len() ==> (#[trigger] pieces[i] matches Piece::Fixed(text) ==> unmarked(
            text,
        ))
}

proof fn lemma_occurrences_concat(a: Seq<char>, b: Seq<char>, c: char)
    ensures
        occurrences(a + b, c) == occurrences(a, c) + occurrences(b, c),
    decreases b.len(),
{
    if b.len() == 0 {
        assert(a + b =~= a);
    } else {
        lemma_occurrences_concat(a, b.drop_last(), c);
        assert((a + b).drop_last() =~= a + b.drop_last());
    }
}

proof fn lemma_no_occurrences(text: Seq<char>, c: char)
    requires
        forall|i: int| 0 <= i < text.len() ==> #[trigger] text[i] != c,
    ensures
        occurrences(text, c) == 0,
    decreases text.len(),
{
    if text.len() > 0 {
        lemma_no_occurrences(text.drop_last(), c);
    }
}

proof fn lemma_placeholder_mark(dialect: Dialect, k: nat)
    ensures
        occurrences(placeholder(dialect, k), mark(dialect)) == 1,
{
    reveal_strlit("?");
    reveal_strlit("$");
    lemma_decimal_digits(k);
    lemma_no_occurrences(decimal(k), '$');
    lemma_occurrences_concat("$"@, decimal(k), '$');
    reveal_with_fuel(occurrences, 2);
    assert("?"@.drop_last() =~= seq![]);
    assert("$"@.drop_last() =~= seq![]);
}

/// A statement whose fixed texts hold no mark has one placeholder for each bound value.
pub proof fn law_one_placeholder_per_value(dialect: Dialect, pieces: Seq<Piece>)
    requires
        clean(pieces),
    ensures
        occurrences(assembled(dialect, pieces).sql, mark(dialect)) == assembled(
            dialect,
            pieces,
        ).binds.len(),
    decreases pieces.len(),
{
    if pieces.len() > 0 {
        let before = assembled(dialect, pieces.drop_last());
        assert forall|i: int| 0 <= i < pieces.len() - 1 implies (
        #[trigger] pieces.drop_last()[i] matches Piece::Fixed(text) ==> unmarked(text)) by {
            assert(pieces.drop_last()[i] == pieces[i]);
        }
        law_one_placeholder_per_value(dialect, pieces.drop_last());
        match pieces.last() {
            Piece::Fixed(text) => {
                assert(unmarked(text)) by {
                    assert(pieces[pieces.len() - 1] == pieces.last());
                }
                lemma_no_occurrences(text, mark(dialect));
                lemma_occurrences_concat(before.sql, text, mark(dialect));
            },
            Piece::Param(_) => {
                let k = before.binds.len() + 1;
                lemma_placeholder_mark(dialect, k);
                lemma_occurrences_concat(before.sql, placeholder(dialect, k), mark(dialect));
            },
        }
    } else {
        assert(assembled(dialect, pieces).sql =~= seq![]);
    }
}

} // verus!
