use vstd::prelude::*;

verus! {

/// What the encoding of a move reads from a JSON text: the text as an unsigned
/// integer, the `action` field as a string, and the `data` field as an array,
/// each element as an unsigned integer where it is one.
pub struct ActionJson {
    pub number: Option<u64>,
    pub action: Option<String>,
    pub data: Option<Vec<Option<u64>>>,
}

pub open spec fn action_json_view(a: ActionJson) -> (Option<u64>, Option<Seq<char>>, Option<Seq<Option<u64>>>) {
    (
        a.number,
        match a.action {
            Some(s) => Some(s@),
            None => None,
        },
        match a.data {
            Some(d) => Some(d@),
            None => None,
        },
    )
}

/// What serde_json makes of `text` read as a JSON value, in the fields that
/// `ActionJson` holds, or `None` where the text is no JSON.
pub uninterp spec fn json_action_fields(text: Seq<char>) -> Option<
    (Option<u64>, Option<Seq<char>>, Option<Seq<Option<u64>>>),
>;

/// Relies on `serde_json::from_str` into a `serde_json::Value`, and on its
/// `as_u64`, `as_str` and `as_array` and its indexing by field name, which
/// gives `Null` for a missing field: a function of the text alone.
#[verifier::external_body]
fn parse_action_json(json_str: &str) -> (r: Option<ActionJson>)
    ensures
        match json_action_fields(json_str@) {
            None => r is None,
            Some(f) => r matches Some(a) && action_json_view(a) == f,
        },
{
    let v: serde_json::Value = serde_json::from_str(json_str).ok()?;
    Some(ActionJson {
        number: v.as_u64(),
        action: v["action"].as_str().map(|s| s.to_owned()),
        data: v["data"].as_array().map(|d| d.iter().map(|x| x.as_u64()).collect()),
    })
}

/// The encoding of a move given as parsed JSON: a bare integer is the column
/// (its low byte); otherwise `action` must be `"DropPiece"` and `data` an array
/// of exactly one integer whose low byte is a column below 7.
pub open spec fn action_bytes(
    f: (Option<u64>, Option<Seq<char>>, Option<Seq<Option<u64>>>),
) -> Result<Seq<u8>, &'static str> {
    match f.0 {
        Some(n) => Ok(seq![n as u8]),
        None => match f.1 {
            None => Err("Missing action field"),
            Some(a) => match f.2 {
                None => Err("Missing data field"),
                Some(d) => if a != "DropPiece"@ {
                    Err("Invalid action type")
                } else if d.len() != 1 {
                    Err("Invalid data length for DropPiece")
                } else {
                    match d[0] {
                        None => Err("Invalid column"),
                        Some(n) => if (n as u8) >= 7 {
                            Err("Column out of bounds")
                        } else {
                            Ok(seq![n as u8])
                        },
                    }
                },
            },
        },
    }
}

pub open spec fn bytes_result_view(r: Result<Vec<u8>, &'static str>) -> Result<Seq<u8>, &'static str> {
    match r {
        Ok(v) => Ok(v@),
        Err(e) => Err(e),
    }
}

/// Encodes a move given as parsed JSON.
pub fn serialize_parsed_action(parsed: &ActionJson) -> (r: Result<Vec<u8>, &'static str>)
    ensures
        bytes_result_view(r) == action_bytes(action_json_view(*parsed)),
{
    let mut result: Vec<u8> = Vec::new();
    match parsed.number {
        Some(n) => {
            result.push(n as u8);
            assert(result@ =~= seq![n as u8]);
            return Ok(result);
        },
        None => {},
    }
    let action_type = match &parsed.action {
        Some(a) => a,
        None => return Err("Missing action field"),
    };
    let data = match &parsed.data {
        Some(d) => d,
        None => return Err("Missing data field"),
    };
    let expected = "DropPiece".to_owned();
    if *action_type != expected {
        return Err("Invalid action type");
    }
    if data.len() != 1 {
        return Err("Invalid data length for DropPiece");
    }
    let column = match data[0] {
        Some(n) => n as u8,
        None => return Err("Invalid column"),
    };
    if column >= 7 {
        return Err("Column out of bounds");
    }
    result.push(column);
    assert(result@ =~= seq![column]);
    Ok(result)
}

/// Encodes a move given as JSON text; a text that is no JSON is refused.
pub fn serialize_action_json(json_str: &str) -> (r: Result<Vec<u8>, &'static str>)
    ensures
        json_action_fields(json_str@) is None ==> r == Err::<Vec<u8>, &'static str>("Invalid JSON"),
        json_action_fields(json_str@) matches Some(f) ==> bytes_result_view(r) == action_bytes(f),
{
    match parse_action_json(json_str) {
        None => Err("Invalid JSON"),
        Some(parsed) => serialize_parsed_action(&parsed),
    }
}

} // verus!
