//! Lua values as what is read of them.

use crate::changes::{MeasureView, Modelled};
use crate::measure::Measure;
use crate::text::{decimal, decimal_text, same};
use vstd::prelude::*;

verus! {

/// A number: what it is compared by, what it is as an integer, and how Lua
/// spells it.
#[derive(Debug, Clone, PartialEq)]
pub struct Numeric {
    pub measure: Measure,
    /// The integer it is, where it is one.
    pub whole: Option<i64>,
    pub spelled: String,
}

/// [`Numeric`] over plain text.
pub struct NumericView {
    pub measure: MeasureView,
    pub whole: Option<i64>,
    pub spelled: Seq<char>,
}

impl View for Numeric {
    type V = NumericView;

    open spec fn view(&self) -> NumericView {
        NumericView {
            measure: self.measure.model(),
            whole: self.whole,
            spelled: self.spelled@,
        }
    }
}

/// A text: what it reads as, where it reads as a number, and what each of its
/// pieces between colons reads as.
#[derive(Debug, Clone, PartialEq)]
pub struct TextValue {
    pub text: String,
    pub number: Option<Numeric>,
    pub pieces: Vec<Option<Measure>>,
}

/// [`TextValue`] over plain text.
pub struct TextView {
    pub text: Seq<char>,
    pub number: Option<NumericView>,
    pub pieces: Seq<Option<MeasureView>>,
}

/// What pieces read as.
pub open spec fn piece_views(pieces: Seq<Option<Measure>>) -> Seq<Option<MeasureView>> {
    pieces.map_values(|p: Option<Measure>| p.model())
}

impl View for TextValue {
    type V = TextView;

    open spec fn view(&self) -> TextView {
        TextView {
            text: self.text@,
            number: match self.number {
                Some(number) => Some(number@),
                None => None,
            },
            pieces: piece_views(self.pieces@),
        }
    }
}

/// A Lua value.
#[derive(Debug, PartialEq)]
pub enum LuaValue {
    Nil,
    Boolean(bool),
    /// An integer, and what it is as a number.
    Integer(i64, Measure),
    Number(Numeric),
    Text(TextValue),
    /// A string that is no text, by why it is none.
    Bytes(String),
    /// A table, and what it is shown as.
    Table(LuaTable, String),
    /// Anything else, by the name of its type and what it is shown as.
    Other(&'static str, String),
}

/// A Lua table: its fields by name, and its items in order.
#[derive(Debug, PartialEq)]
pub struct LuaTable {
    pub fields: Vec<(String, LuaValue)>,
    pub items: Vec<LuaValue>,
}

/// [`LuaValue`] over plain text.
pub enum LuaView {
    Nil,
    Boolean(bool),
    Integer(i64, MeasureView),
    Number(NumericView),
    Text(TextView),
    Bytes(Seq<char>),
    Table(Seq<(Seq<char>, LuaView)>, Seq<LuaView>, Seq<char>),
    Other(Seq<char>, Seq<char>),
}

/// A value over plain text.
pub open spec fn lua_view(value: LuaValue) -> LuaView
    decreases value,
{
    match value {
        LuaValue::Nil => LuaView::Nil,
        LuaValue::Boolean(b) => LuaView::Boolean(b),
        LuaValue::Integer(i, measure) => LuaView::Integer(i, measure.model()),
        LuaValue::Number(n) => LuaView::Number(n@),
        LuaValue::Text(t) => LuaView::Text(t@),
        LuaValue::Bytes(why) => LuaView::Bytes(why@),
        LuaValue::Table(table, shown) => LuaView::Table(
            lua_fields(table.fields@),
            lua_items(table.items@),
            shown@,
        ),
        LuaValue::Other(kind, shown) => LuaView::Other(kind@, shown@),
    }
}

/// Fields over plain text.
pub open spec fn lua_fields(fields: Seq<(String, LuaValue)>) -> Seq<(Seq<char>, LuaView)>
    decreases fields,
{
    if fields.len() == 0 {
        Seq::empty()
    } else {
        lua_fields(fields.drop_last()).push((fields.last().0@, lua_view(fields.last().1)))
    }
}

/// Items over plain text.
pub open spec fn lua_items(items: Seq<LuaValue>) -> Seq<LuaView>
    decreases items,
{
    if items.len() == 0 {
        Seq::empty()
    } else {
        lua_items(items.drop_last()).push(lua_view(items.last()))
    }
}

/// Each field stands where it stood.
pub proof fn lemma_lua_fields(fields: Seq<(String, LuaValue)>)
    ensures
        lua_fields(fields).len() == fields.len(),
        forall|i: int|
            0 <= i < fields.len() ==> #[trigger] lua_fields(fields)[i] == (
                fields[i].0@,
                lua_view(fields[i].1),
            ),
    decreases fields.len(),
{
    if fields.len() > 0 {
        lemma_lua_fields(fields.drop_last());
    }
}

/// Each item stands where it stood.
pub proof fn lemma_lua_items(items: Seq<LuaValue>)
    ensures
        lua_items(items).len() == items.len(),
        forall|i: int| 0 <= i < items.len() ==> #[trigger] lua_items(items)[i] == lua_view(items[i]),
    decreases items.len(),
{
    if items.len() > 0 {
        lemma_lua_items(items.drop_last());
    }
}

impl View for LuaValue {
    type V = LuaView;

    open spec fn view(&self) -> LuaView {
        lua_view(*self)
    }
}

impl View for LuaTable {
    type V = (Seq<(Seq<char>, LuaView)>, Seq<LuaView>);

    open spec fn view(&self) -> (Seq<(Seq<char>, LuaView)>, Seq<LuaView>) {
        (lua_fields(self.fields@), lua_items(self.items@))
    }
}

/// What a field holds, nil where there is none.
pub open spec fn lookup(fields: Seq<(Seq<char>, LuaView)>, key: Seq<char>) -> LuaView
    decreases fields.len(),
{
    if fields.len() == 0 {
        LuaView::Nil
    } else if fields[0].0 == key {
        fields[0].1
    } else {
        lookup(fields.skip(1), key)
    }
}

/// The name of a value's type.
pub open spec fn type_text(value: LuaView) -> Seq<char> {
    match value {
        LuaView::Nil => "nil"@,
        LuaView::Boolean(_) => "boolean"@,
        LuaView::Integer(_, _) => "integer"@,
        LuaView::Number(_) => "number"@,
        LuaView::Text(_) => "string"@,
        LuaView::Bytes(_) => "string"@,
        LuaView::Table(_, _, _) => "table"@,
        LuaView::Other(kind, _) => kind,
    }
}

impl LuaValue {
    /// The name of the value's type.
    pub fn kind_of_value(&self) -> (r: &'static str)
        ensures
            r@ == type_text(self@),
    {
        match self {
            LuaValue::Nil => "nil",
            LuaValue::Boolean(_) => "boolean",
            LuaValue::Integer(_, _) => "integer",
            LuaValue::Number(_) => "number",
            LuaValue::Text(_) => "string",
            LuaValue::Bytes(_) => "string",
            LuaValue::Table(_, _) => "table",
            LuaValue::Other(kind, _) => *kind,
        }
    }
}

impl LuaTable {
    /// A table with nothing in it.
    pub fn new() -> (r: LuaTable)
        ensures
            r@ == (Seq::<(Seq<char>, LuaView)>::empty(), Seq::<LuaView>::empty()),
    {
        let r = LuaTable { fields: Vec::new(), items: Vec::new() };
        assert(lua_fields(r.fields@) =~= Seq::<(Seq<char>, LuaView)>::empty());
        assert(lua_items(r.items@) =~= Seq::<LuaView>::empty());
        r
    }

    /// What a field holds, where there is one.
    pub fn get(&self, key: &str) -> (r: Option<&LuaValue>)
        ensures
            match r {
                Some(value) => value@ == lookup(self@.0, key@),
                None => lookup(self@.0, key@) == LuaView::Nil,
            },
            r matches Some(value) ==> exists|i: int|
                0 <= i < self.fields@.len() && (#[trigger] self.fields@[i]).1 == *value,
    {
        let ghost all = lua_fields(self.fields@);
        let mut i: usize = 0;
        proof {
            lemma_lua_fields(self.fields@);
            assert(all.skip(0) =~= all);
        }
        while i < self.fields.len()
            invariant
                i <= self.fields@.len(),
                all == lua_fields(self.fields@),
                all.len() == self.fields@.len(),
                lookup(all, key@) == lookup(all.skip(i as int), key@),
            decreases self.fields@.len() - i,
        {
            proof {
                lemma_lua_fields(self.fields@);
                assert(all.skip(i as int)[0] == all[i as int]);
                assert(all.skip(i as int).skip(1) =~= all.skip(i + 1));
            }
            if same(&self.fields[i].0, key) {
                assert(self.fields@[i as int].1 == self.fields[i as int].1);
                return Some(&self.fields[i].1);
            }
            i = i + 1;
        }
        proof {
            assert(all.skip(i as int).len() == 0);
        }
        None
    }
}

// ---------------------------------------------------------------------------
// What a value reads as

/// One type found where another was wanted, over plain text.
pub struct MismatchView {
    pub from: Seq<char>,
    pub to: Seq<char>,
    pub note: Option<Seq<char>>,
}

/// One type found where another was wanted, and what there is to say of that.
#[derive(Debug, Clone, PartialEq, Eq)]
pub struct Mismatch {
    pub from: &'static str,
    pub to: &'static str,
    pub note: Option<String>,
}

impl View for Mismatch {
    type V = MismatchView;

    open spec fn view(&self) -> MismatchView {
        MismatchView {
            from: self.from@,
            to: self.to@,
            note: match self.note {
                Some(note) => Some(note@),
                None => None,
            },
        }
    }
}

/// What to say of one type found where another was wanted.
pub open spec fn mismatch_text(why: MismatchView) -> Seq<char> {
    "error converting Lua "@ + why.from + " to "@ + why.to + (match why.note {
        Some(note) => " ("@ + note + ")"@,
        None => Seq::<char>::empty(),
    })
}

impl Mismatch {
    /// What to say of it.
    pub fn to_string(&self) -> (r: String)
        ensures
            r@ == mismatch_text(self@),
    {
        let said = crate::text::joined(
            &crate::text::joined3("error converting Lua ", self.from, " to "),
            self.to,
        );
        match &self.note {
            Some(note) => crate::text::joined(&said, &crate::text::joined3(" (", note, ")")),
            None => {
                proof {
                    assert(said@ =~= mismatch_text(self@));
                }
                said
            },
        }
    }
}

/// What a value is refused with where another type was wanted.
pub open spec fn refused(value: LuaView, wanted: Seq<char>, note: Option<Seq<char>>) -> LuaFault {
    LuaFault::Conversion(MismatchView { from: type_text(value), to: wanted, note })
}

/// A fault over plain text.
pub enum LuaFault {
    /// A value of one type where another was wanted.
    Conversion(MismatchView),
    /// The same, of an argument: which one it is, and what it is an argument
    /// of, where that has a name.
    Argument(nat, Option<Seq<char>>, MismatchView),
    /// Anything with a message of its own.
    Message(Seq<char>),
}

/// Why a value could not be read.
#[derive(Debug, Clone, PartialEq, Eq)]
pub enum LuaError {
    /// A value of one type where another was wanted.
    Conversion(Mismatch),
    /// The same, of an argument: which one it is, and what it is an argument
    /// of, where that has a name.
    Argument(u64, Option<&'static str>, Mismatch),
    /// Anything with a message of its own.
    Message(String),
}

impl View for LuaError {
    type V = LuaFault;

    open spec fn view(&self) -> LuaFault {
        match self {
            LuaError::Conversion(why) => LuaFault::Conversion(why@),
            LuaError::Argument(at, of, why) => LuaFault::Argument(
                *at as nat,
                match of {
                    Some(name) => Some(name@),
                    None => None,
                },
                why@,
            ),
            LuaError::Message(text) => LuaFault::Message(text@),
        }
    }
}

/// What to say of a fault.
pub open spec fn fault_text(fault: LuaFault) -> Seq<char> {
    match fault {
        LuaFault::Conversion(why) => mismatch_text(why),
        LuaFault::Argument(at, of, why) => "bad argument #"@ + decimal_text(at) + (match of {
            Some(name) => " to `"@ + name + "`"@,
            None => Seq::<char>::empty(),
        }) + (": "@ + mismatch_text(why)),
        LuaFault::Message(text) => text,
    }
}

/// A fault met in reading an argument.
pub open spec fn of_argument(fault: LuaFault, at: nat, of: Option<Seq<char>>) -> LuaFault {
    match fault {
        LuaFault::Conversion(why) => LuaFault::Argument(at, of, why),
        _ => fault,
    }
}

impl LuaError {
    /// What to say of it.
    pub fn to_string(&self) -> (r: String)
        ensures
            r@ == fault_text(self@),
    {
        match self {
            LuaError::Conversion(why) => why.to_string(),
            LuaError::Argument(at, of, why) => {
                let which = crate::text::joined("bad argument #", &decimal(*at));
                let whose = match of {
                    Some(name) => crate::text::joined(
                        &which,
                        &crate::text::joined3(" to `", name, "`"),
                    ),
                    None => which,
                };
                let r = crate::text::joined(&whose, &crate::text::joined(": ", &why.to_string()));
                proof {
                    assert(r@ =~= fault_text(self@));
                }
                r
            },
            LuaError::Message(text) => text.clone(),
        }
    }

    /// This, met in reading an argument.
    pub fn of_argument(self, at: u64, of: Option<&'static str>) -> (r: LuaError)
        ensures
            r@ == of_argument(
                self@,
                at as nat,
                match of {
                    Some(name) => Some(name@),
                    None => None,
                },
            ),
    {
        match self {
            LuaError::Conversion(why) => LuaError::Argument(at, of, why),
            other => other,
        }
    }
}

/// What a value that can be spelled neither way is refused as text with.
pub open spec fn text_note() -> Seq<char> {
    "expected string or number"@
}

/// What a value that spells no number is refused as one with.
pub open spec fn number_note() -> Seq<char> {
    "expected number or string coercible to number"@
}

/// How a text is asked for.
#[derive(Debug, Clone, Copy, PartialEq, Eq, Structural)]
pub enum TextForm {
    /// As text outright.
    Text,
    /// As a string of whatever bytes, and of that as text.
    Bytes,
}

/// What is asked for.
pub open spec fn form_text(form: TextForm) -> Seq<char> {
    match form {
        TextForm::Text => "String"@,
        TextForm::Bytes => "string"@,
    }
}

/// A string that is no text, and why it is none.
pub open spec fn not_text(why: Seq<char>) -> LuaFault {
    LuaFault::Conversion(MismatchView { from: "string"@, to: "&str"@, note: Some(why) })
}

/// A string that is no text, and why it is none.
pub fn no_text(why: &String) -> (r: LuaError)
    ensures
        r@ == not_text(why@),
{
    LuaError::Conversion(Mismatch { from: "string", to: "&str", note: Some(why.clone()) })
}

/// The text a value reads as: a string, or a number as Lua spells it.
pub open spec fn text_read(value: LuaView, form: TextForm) -> Result<Seq<char>, LuaFault> {
    match value {
        LuaView::Text(t) => Ok(t.text),
        LuaView::Integer(i, _) => Ok(signed_text(i as int)),
        LuaView::Number(n) => Ok(n.spelled),
        LuaView::Bytes(why) => match form {
            TextForm::Text => Err(refused(value, form_text(form), Some(why))),
            TextForm::Bytes => Err(not_text(why)),
        },
        _ => Err(refused(value, form_text(form), Some(text_note()))),
    }
}

/// An integer in decimal, with its sign.
pub open spec fn signed_text(n: int) -> Seq<char> {
    if n < 0 {
        "-"@ + decimal_text((-n) as nat)
    } else {
        decimal_text(n as nat)
    }
}

/// An integer in decimal, with its sign.
pub fn signed(n: i64) -> (r: String)
    ensures
        r@ == signed_text(n as int),
{
    if n == i64::MIN {
        let digits = decimal(9223372036854775808u64);
        crate::text::joined("-", &digits)
    } else if n < 0 {
        let digits = decimal((-n) as u64);
        crate::text::joined("-", &digits)
    } else {
        decimal(n as u64)
    }
}

/// The number a value reads as: a number, or a string that spells one.
pub open spec fn measure_read(value: LuaView, wanted: Seq<char>) -> Result<MeasureView, LuaFault> {
    match value {
        LuaView::Integer(_, measure) => Ok(measure),
        LuaView::Number(n) => Ok(n.measure),
        LuaView::Text(t) => match t.number {
            Some(n) => Ok(n.measure),
            None => Err(refused(value, wanted, Some(number_note()))),
        },
        _ => Err(refused(value, wanted, Some(number_note()))),
    }
}

/// The integer a value is, where it spells a number: none where that number is
/// no integer.
pub open spec fn whole_of(value: LuaView) -> Option<Option<i64>> {
    match value {
        LuaView::Integer(i, _) => Some(Some(i)),
        LuaView::Number(n) => Some(n.whole),
        LuaView::Text(t) => match t.number {
            Some(n) => Some(n.whole),
            None => None,
        },
        _ => None,
    }
}

/// What a number that does not fit is: a number that is an integer counts as
/// one.
pub open spec fn whole_text(value: LuaView) -> Seq<char> {
    match value {
        LuaView::Number(n) => if n.whole is Some {
            "integer"@
        } else {
            "number"@
        },
        _ => type_text(value),
    }
}

/// The integer a value reads as, within a range.
pub open spec fn whole_read(
    value: LuaView,
    least: int,
    most: int,
    wanted: Seq<char>,
) -> Result<int, LuaFault> {
    match whole_of(value) {
        None => Err(refused(value, wanted, Some(number_note()))),
        Some(whole) => match whole {
            Some(i) if least <= i <= most => Ok(i as int),
            _ => Err(
                LuaFault::Conversion(
                    MismatchView {
                        from: whole_text(value),
                        to: wanted,
                        note: Some("out of range"@),
                    },
                ),
            ),
        },
    }
}

impl LuaValue {
    /// What this is refused with where another type was wanted.
    pub fn refusal(&self, wanted: &'static str, note: Option<String>) -> (r: LuaError)
        ensures
            r@ == refused(
                self@,
                wanted@,
                match note {
                    Some(note) => Some(note@),
                    None => None,
                },
            ),
    {
        LuaError::Conversion(Mismatch { from: self.kind_of_value(), to: wanted, note })
    }

    /// What this is refused as a number with.
    fn no_number(&self, wanted: &'static str) -> (r: LuaError)
        ensures
            r@ == refused(self@, wanted@, Some(number_note())),
    {
        self.refusal(wanted, Some("expected number or string coercible to number".to_owned()))
    }

    /// The text this reads as.
    pub fn read_text(&self, form: TextForm) -> (r: Result<String, LuaError>)
        ensures
            match r {
                Ok(text) => text_read(self@, form) == Ok::<Seq<char>, LuaFault>(text@),
                Err(e) => text_read(self@, form) == Err::<Seq<char>, LuaFault>(e@),
            },
    {
        let wanted = match form {
            TextForm::Text => "String",
            TextForm::Bytes => "string",
        };
        match self {
            LuaValue::Text(t) => Ok(t.text.clone()),
            LuaValue::Integer(i, _) => Ok(signed(*i)),
            LuaValue::Number(n) => Ok(n.spelled.clone()),
            LuaValue::Bytes(why) => match form {
                TextForm::Text => Err(self.refusal(wanted, Some(why.clone()))),
                TextForm::Bytes => Err(no_text(why)),
            },
            _ => Err(self.refusal(wanted, Some("expected string or number".to_owned()))),
        }
    }

    /// The number this reads as.
    pub fn read_measure(&self, wanted: &'static str) -> (r: Result<Measure, LuaError>)
        ensures
            match r {
                Ok(m) => measure_read(self@, wanted@) == Ok::<MeasureView, LuaFault>(m.model()),
                Err(e) => measure_read(self@, wanted@) == Err::<MeasureView, LuaFault>(e@),
            },
    {
        match self {
            LuaValue::Integer(_, measure) => Ok(measure.copied()),
            LuaValue::Number(n) => Ok(n.measure.copied()),
            LuaValue::Text(t) => match &t.number {
                Some(n) => Ok(n.measure.copied()),
                None => Err(self.no_number(wanted)),
            },
            _ => Err(self.no_number(wanted)),
        }
    }

    /// The integer this reads as, within a range.
    pub fn read_whole(&self, least: i64, most: i64, wanted: &'static str) -> (r: Result<
        i64,
        LuaError,
    >)
        ensures
            match r {
                Ok(i) => whole_read(self@, least as int, most as int, wanted@) == Ok::<
                    int,
                    LuaFault,
                >(i as int),
                Err(e) => whole_read(self@, least as int, most as int, wanted@) == Err::<
                    int,
                    LuaFault,
                >(e@),
            },
    {
        let whole: Option<i64> = match self {
            LuaValue::Integer(i, _) => Some(*i),
            LuaValue::Number(n) => n.whole,
            LuaValue::Text(t) => match &t.number {
                Some(n) => n.whole,
                None => {
                    return Err(self.no_number(wanted));
                },
            },
            _ => {
                return Err(self.no_number(wanted));
            },
        };
        match whole {
            Some(i) if least <= i && i <= most => Ok(i),
            _ => {
                let from = match self {
                    LuaValue::Number(n) => match n.whole {
                        Some(_) => "integer",
                        None => "number",
                    },
                    _ => self.kind_of_value(),
                };
                Err(
                    LuaError::Conversion(
                        Mismatch { from, to: wanted, note: Some("out of range".to_owned()) },
                    ),
                )
            },
        }
    }
}

// ---------------------------------------------------------------------------
// Copies and merges

/// What pieces read as, again.
fn copy_pieces(pieces: &Vec<Option<Measure>>) -> (r: Vec<Option<Measure>>)
    ensures
        piece_views(r@) == piece_views(pieces@),
{
    let mut out: Vec<Option<Measure>> = Vec::new();
    let mut i: usize = 0;
    while i < pieces.len()
        invariant
            i <= pieces@.len(),
            piece_views(out@) =~= piece_views(pieces@).take(i as int),
        decreases pieces@.len() - i,
    {
        let ghost before = out@;
        out.push(pieces[i].copy());
        proof {
            assert(piece_views(out@) =~= piece_views(before).push(pieces@[i as int].model()));
        }
        i = i + 1;
    }
    proof {
        assert(piece_views(pieces@).take(pieces@.len() as int) =~= piece_views(pieces@));
    }
    out
}

impl Numeric {
    /// The same number again.
    pub fn copied(&self) -> (r: Numeric)
        ensures
            r@ == self@,
    {
        Numeric {
            measure: self.measure.copied(),
            whole: self.whole,
            spelled: self.spelled.clone(),
        }
    }
}

impl TextValue {
    /// The same text again.
    pub fn copied(&self) -> (r: TextValue)
        ensures
            r@ == self@,
    {
        TextValue {
            text: self.text.clone(),
            number: match &self.number {
                Some(n) => Some(n.copied()),
                None => None,
            },
            pieces: copy_pieces(&self.pieces),
        }
    }
}

impl LuaValue {
    /// The same value again.
    pub fn copied(&self) -> (r: LuaValue)
        ensures
            r@ == self@,
        decreases self,
    {
        match self {
            LuaValue::Nil => LuaValue::Nil,
            LuaValue::Boolean(b) => LuaValue::Boolean(*b),
            LuaValue::Integer(i, measure) => LuaValue::Integer(*i, measure.copied()),
            LuaValue::Number(n) => LuaValue::Number(n.copied()),
            LuaValue::Text(t) => LuaValue::Text(t.copied()),
            LuaValue::Bytes(why) => LuaValue::Bytes(why.clone()),
            LuaValue::Table(table, shown) => LuaValue::Table(table.copied(), shown.clone()),
            LuaValue::Other(kind, shown) => LuaValue::Other(*kind, shown.clone()),
        }
    }
}

impl LuaTable {
    /// The same table again.
    pub fn copied(&self) -> (r: LuaTable)
        ensures
            r@ == self@,
        decreases self,
    {
        LuaTable { fields: copy_fields(&self.fields), items: copy_items(&self.items) }
    }
}

/// Fields again.
fn copy_fields(fields: &Vec<(String, LuaValue)>) -> (r: Vec<(String, LuaValue)>)
    ensures
        lua_fields(r@) == lua_fields(fields@),
    decreases fields,
{
    let mut out: Vec<(String, LuaValue)> = Vec::new();
    let mut i: usize = 0;
    proof {
        assert(fields@.take(0) =~= Seq::<(String, LuaValue)>::empty());
    }
    while i < fields.len()
        invariant
            i <= fields@.len(),
            lua_fields(out@) == lua_fields(fields@.take(i as int)),
        decreases fields@.len() - i,
    {
        proof {
            assert(decreases_to!(fields => fields@));
            assert(decreases_to!(fields@ => fields@[i as int]));
            assert(decreases_to!(fields@[i as int] => fields@[i as int].1));
            assert(fields@.take(i + 1).drop_last() =~= fields@.take(i as int));
            assert(fields@.take(i + 1).last() == fields@[i as int]);
        }
        let value = fields[i].1.copied();
        let ghost before = out@;
        out.push((fields[i].0.clone(), value));
        proof {
            assert(out@.drop_last() =~= before);
        }
        i = i + 1;
    }
    proof {
        assert(fields@.take(fields@.len() as int) =~= fields@);
    }
    out
}

/// Items again.
fn copy_items(items: &Vec<LuaValue>) -> (r: Vec<LuaValue>)
    ensures
        lua_items(r@) == lua_items(items@),
    decreases items,
{
    let mut out: Vec<LuaValue> = Vec::new();
    let mut i: usize = 0;
    proof {
        assert(items@.take(0) =~= Seq::<LuaValue>::empty());
    }
    while i < items.len()
        invariant
            i <= items@.len(),
            lua_items(out@) == lua_items(items@.take(i as int)),
        decreases items@.len() - i,
    {
        proof {
            assert(decreases_to!(items => items@));
            assert(decreases_to!(items@ => items@[i as int]));
            assert(items@.take(i + 1).drop_last() =~= items@.take(i as int));
            assert(items@.take(i + 1).last() == items@[i as int]);
        }
        let value = items[i].copied();
        let ghost before = out@;
        out.push(value);
        proof {
            assert(out@.drop_last() =~= before);
        }
        i = i + 1;
    }
    proof {
        assert(items@.take(items@.len() as int) =~= items@);
    }
    out
}

} // verus!
