//! Turns a raw change record of the store's feed into a [`StockEvent`].
//! Pure: no I/O, no shared state.
use vstd::prelude::*;
use crate::schema::{action_consistent, EventThing, ProductThing, StockAction, StockEvent};

verus! {

/// The value of one field of a change record.
pub enum FieldValue {
    Text(String),
    Number(i64),
    /// Any other value (a float, a list, an object, null).
    Other,
}

/// One named field of a change record.
pub struct Field {
    pub name: String,
    pub value: FieldValue,
}

/// A change record as the store's feed delivers it: its fields, and the
/// feed's sequence token, increasing within one subscription.
pub struct ChangeRecord {
    pub sequence: u64,
    pub fields: Vec<Field>,
}

/// Why a change record could not be translated.
#[derive(Debug, Clone, Copy, PartialEq, Eq, Structural)]
pub enum TranslationError {
    /// A required field is absent or holds a value of the wrong kind.
    UnknownShape,
}

/// The value of field `name`; where a name repeats, the last one counts.
pub open spec fn lookup(fs: Seq<Field>, name: Seq<char>) -> Option<FieldValue>
    decreases fs.len(),
{
    if fs.len() == 0 {
        None
    } else if fs.last().name@ == name {
        Some(fs.last().value)
    } else {
        lookup(fs.drop_last(), name)
    }
}

/// Field `name` as non-empty text.
pub open spec fn text_of(fs: Seq<Field>, name: Seq<char>) -> Option<Seq<char>> {
    match lookup(fs, name) {
        Some(FieldValue::Text(s)) => if s@.len() > 0 { Some(s@) } else { None },
        _ => None,
    }
}

/// Field `name` as a unit count: an integer from 0 to `u16::MAX`.
pub open spec fn units_field(fs: Seq<Field>, name: Seq<char>) -> Option<u16> {
    match lookup(fs, name) {
        Some(FieldValue::Number(n)) => if 0 <= n <= u16::MAX { Some(n as u16) } else { None },
        _ => None,
    }
}

/// The action named by the `action` field.
pub open spec fn action_of(fs: Seq<Field>) -> Option<StockAction> {
    match text_of(fs, "action"@) {
        Some(t) => if t == "increment"@ {
            Some(StockAction::Increment)
        } else if t == "decrement"@ {
            Some(StockAction::Decrement)
        } else if t == "set"@ {
            Some(StockAction::SetUnits)
        } else {
            None
        },
        None => None,
    }
}

/// Whether the fields describe a stock change: every required field is
/// present with the right kind, and the unit counts agree with the action.
pub open spec fn translatable(fs: Seq<Field>) -> bool {
    &&& text_of(fs, "id"@) is Some
    &&& text_of(fs, "occurred_at"@) is Some
    &&& action_of(fs) is Some
    &&& text_of(fs, "product_id"@) is Some
    &&& units_field(fs, "units_before"@) is Some
    &&& units_field(fs, "units_after"@) is Some
    &&& action_consistent(
        action_of(fs)->0,
        units_field(fs, "units_before"@)->0,
        units_field(fs, "units_after"@)->0,
    )
}

/// Whether `e` holds exactly what the fields say.
pub open spec fn describes(fs: Seq<Field>, e: StockEvent) -> bool {
    &&& text_of(fs, "id"@) == Some(e.id.id@)
    &&& text_of(fs, "occurred_at"@) == Some(e.occurred_at@)
    &&& action_of(fs) == Some(e.action)
    &&& text_of(fs, "product_id"@) == Some(e.product_id.id@)
    &&& units_field(fs, "units_before"@) == Some(e.units_before)
    &&& units_field(fs, "units_after"@) == Some(e.units_after)
}

/// Index of the field that `lookup` reads.
fn find_field(fields: &Vec<Field>, name: &str) -> (r: Option<usize>)
    ensures
        r is None <==> lookup(fields@, name@) is None,
        r matches Some(i) ==> i < fields@.len() && lookup(fields@, name@) == Some(fields@[i as int].value),
{
    let key = String::from_str(name);
    let mut i: usize = fields.len();
    proof {
        assert(fields@.subrange(0, i as int) =~= fields@);
    }
    while i > 0
        invariant
            i <= fields@.len(),
            key@ == name@,
            lookup(fields@, name@) == lookup(fields@.subrange(0, i as int), name@),
        decreases i,
    {
        let ghost prefix = fields@.subrange(0, i as int);
        if fields[i - 1].name == key {
            return Some(i - 1);
        }
        proof {
            assert(prefix.drop_last() =~= fields@.subrange(0, i - 1));
        }
        i = i - 1;
    }
    None
}

/// Field `name` as non-empty text.
fn text_field(fields: &Vec<Field>, name: &str) -> (r: Option<String>)
    ensures
        r is Some <==> text_of(fields@, name@) is Some,
        r matches Some(s) ==> text_of(fields@, name@) == Some(s@),
{
    match find_field(fields, name) {
        Some(i) => match &fields[i].value {
            FieldValue::Text(s) => if s.as_str().is_empty() {
                None
            } else {
                Some(s.clone())
            },
            _ => None,
        },
        None => None,
    }
}

/// Field `name` as a unit count.
fn units_value(fields: &Vec<Field>, name: &str) -> (r: Option<u16>)
    ensures
        r == units_field(fields@, name@),
{
    match find_field(fields, name) {
        Some(i) => match &fields[i].value {
            FieldValue::Number(n) => if 0 <= *n && *n <= u16::MAX as i64 {
                Some(*n as u16)
            } else {
                None
            },
            _ => None,
        },
        None => None,
    }
}

/// The action named by the `action` field.
fn action_value(fields: &Vec<Field>) -> (r: Option<StockAction>)
    ensures
        r == action_of(fields@),
{
    match text_field(fields, "action") {
        Some(t) => if t == String::from_str("increment") {
            Some(StockAction::Increment)
        } else if t == String::from_str("decrement") {
            Some(StockAction::Decrement)
        } else if t == String::from_str("set") {
            Some(StockAction::SetUnits)
        } else {
            None
        },
        None => None,
    }
}

/// Builds the event that a change record describes. Fails with
/// `UnknownShape` exactly when a required field is missing, has the wrong
/// kind, or the unit counts contradict the action; extra fields are ignored.
pub fn translate(record: &ChangeRecord) -> (r: Result<StockEvent, TranslationError>)
    ensures
        r is Ok <==> translatable(record.fields@),
        r matches Ok(e) ==> describes(record.fields@, e) && e.wf(),
        r is Err ==> r == Err::<StockEvent, TranslationError>(TranslationError::UnknownShape),
{
    let fs = &record.fields;
    let id = match text_field(fs, "id") {
        Some(v) => v,
        None => return Err(TranslationError::UnknownShape),
    };
    let occurred_at = match text_field(fs, "occurred_at") {
        Some(v) => v,
        None => return Err(TranslationError::UnknownShape),
    };
    let action = match action_value(fs) {
        Some(v) => v,
        None => return Err(TranslationError::UnknownShape),
    };
    let product_id = match text_field(fs, "product_id") {
        Some(v) => v,
        None => return Err(TranslationError::UnknownShape),
    };
    let units_before = match units_value(fs, "units_before") {
        Some(v) => v,
        None => return Err(TranslationError::UnknownShape),
    };
    let units_after = match units_value(fs, "units_after") {
        Some(v) => v,
        None => return Err(TranslationError::UnknownShape),
    };
    let consistent = match action {
        StockAction::Increment => units_before < units_after,
        StockAction::Decrement => units_after < units_before,
        StockAction::SetUnits => true,
    };
    if !consistent {
        return Err(TranslationError::UnknownShape);
    }
    Ok(StockEvent {
        id: EventThing { id },
        occurred_at,
        action,
        product_id: ProductThing { id: product_id },
        units_before,
        units_after,
    })
}

} // verus!
