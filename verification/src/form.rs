//! What a player enters in the form, and how the fields are read: the
//! identifiers, the board as a list of cells, and the coordinates of a shot.

use percent_encoding::percent_decode_str;
use vstd::prelude::*;
use vstd::string::StrSliceExecFns;

verus! {

/// The fields of the form. `button` names the action; every other field may
/// be missing.
#[derive(Clone, Debug, PartialEq, Eq)]
pub struct FormData {
    pub button: String,
    pub d_pubkey: Option<String>,
    pub d_privkey: Option<String>,
    pub rsa_pubkey: Option<String>,
    pub rsa_privkey: Option<String>,
    pub turn_token: Option<String>,
    pub gameid: Option<String>,
    pub fleetid: Option<String>,
    pub targetfleet: Option<String>,
    pub x: Option<String>,
    pub y: Option<String>,
    pub rx: Option<String>,
    pub ry: Option<String>,
    pub report: Option<String>,
    pub board: Option<String>,
    pub shots: Option<String>,
    pub random: Option<String>,
}

/// The text that percent-decoding gives, as the `percent_encoding` crate
/// does it, or `None` where the decoded bytes are not UTF-8.
pub uninterp spec fn percent_decoded_text(text: Seq<char>) -> Option<Seq<char>>;

/// `percent_decode_str` of the `percent_encoding` crate, followed by its
/// `decode_utf8`: the result is the decoded text, and `None` where the crate
/// reports that the decoded bytes are not UTF-8.
#[verifier::external_body]
fn percent_decode_text(text: &str) -> (decoded: Option<String>)
    ensures
        match decoded {
            Some(d) => percent_decoded_text(text@) == Some(d@),
            None => percent_decoded_text(text@) is None,
        },
{
    match percent_decode_str(text).decode_utf8() {
        Ok(decoded) => Some(decoded.into_owned()),
        Err(_) => None,
    }
}

/// The characters of a field that may be missing.
pub open spec fn field(text: Option<String>) -> Option<Seq<char>> {
    match text {
        Some(t) => Some(t@),
        None => None,
    }
}

pub open spec fn is_digit(c: char) -> bool {
    '0' <= c <= '9'
}

/// The number that a run of decimal digits stands for.
pub open spec fn digits_value(digits: Seq<char>) -> int
    decreases digits.len(),
{
    if digits.len() == 0 {
        0
    } else {
        digits_value(digits.drop_last()) * 10 + (digits.last() as int - '0' as int)
    }
}

/// The digits of a number text: the text without a leading plus sign.
pub open spec fn number_digits(text: Seq<char>) -> Seq<char> {
    if text.len() > 0 && text[0] == '+' {
        text.skip(1)
    } else {
        text
    }
}

/// The byte that a text stands for: decimal digits, at least one, with at
/// most a plus sign before them, and a value of at most 255.
pub open spec fn parse_u8(text: Seq<char>) -> Option<u8> {
    let digits = number_digits(text);
    if digits.len() > 0 && (forall|i: int| 0 <= i < digits.len() ==> is_digit(#[trigger] digits[i]))
        && digits_value(digits) <= 255 {
        Some(digits_value(digits) as u8)
    } else {
        None
    }
}

/// The pieces of a text between its commas. A text without a comma is one
/// piece, and so is the empty text.
pub open spec fn comma_fields(text: Seq<char>) -> Seq<Seq<char>>
    decreases text.len(),
{
    if text.len() == 0 {
        seq![Seq::<char>::empty()]
    } else {
        let before = comma_fields(text.drop_last());
        if text.last() == ',' {
            before.push(Seq::<char>::empty())
        } else {
            before.drop_last().push(before.last().push(text.last()))
        }
    }
}

pub open spec fn invalid_number() -> Seq<char> {
    "Invalid number in Board Placement"@
}

/// The board that a text lists: the bytes between its commas, or an error
/// where a piece is no byte.
pub open spec fn parse_board_text(text: Seq<char>) -> Result<Seq<u8>, Seq<char>> {
    let pieces = comma_fields(text);
    if forall|i: int| 0 <= i < pieces.len() ==> parse_u8(#[trigger] pieces[i]) is Some {
        Ok(Seq::new(pieces.len(), |i: int| parse_u8(pieces[i]).unwrap()))
    } else {
        Err(invalid_number())
    }
}

/// The board of the form: the field must be there, must percent-decode to a
/// text, and the text must list bytes.
pub open spec fn board_field(text: Option<String>) -> Result<Seq<u8>, Seq<char>> {
    match text {
        None => Err("You must provide a Board Placement"@),
        Some(t) => match percent_decoded_text(t@) {
            None => Err("Invalid Board Placement"@),
            Some(decoded) => parse_board_text(decoded),
        },
    }
}

/// An identifier of the form: the field must be there and must not be empty.
pub open spec fn id_field(text: Option<String>, missing: Seq<char>, empty: Seq<char>) -> Result<
    Seq<char>,
    Seq<char>,
> {
    match text {
        None => Err(missing),
        Some(t) => if t@.len() == 0 {
            Err(empty)
        } else {
            Ok(t@)
        },
    }
}

/// What the form says of the game, the fleet, the board and the nonce, or
/// the first thing that is wrong with it, in this order: game, fleet,
/// nonce, board.
pub open spec fn unmarshal_data_spec(idata: FormData) -> Result<
    (Seq<char>, Seq<char>, Seq<u8>, Seq<char>),
    Seq<char>,
> {
    match id_field(
        idata.gameid,
        "You must provide a Game ID"@,
        "Game ID cannot be an empty string"@,
    ) {
        Err(e) => Err(e),
        Ok(gameid) => match id_field(
            idata.fleetid,
            "You must provide a Fleet ID"@,
            "Fleet ID cannot be an empty string"@,
        ) {
            Err(e) => Err(e),
            Ok(fleetid) => match idata.random {
                None => Err("You must provide a Random Seed"@),
                Some(random) => match board_field(idata.board) {
                    Err(e) => Err(e),
                    Ok(board) => Ok((gameid, fleetid, board, random@)),
                },
            },
        },
    }
}

/// One coordinate of a shot: the first character of the field must lie
/// between `low` and `high`, and the coordinate is its distance from `low`.
pub open spec fn coordinate(
    text: Option<String>,
    low: char,
    high: char,
    missing: Seq<char>,
    invalid: Seq<char>,
    out_of_range: Seq<char>,
) -> Result<u8, Seq<char>> {
    match text {
        None => Err(missing),
        Some(t) => if t@.len() == 0 {
            Err(invalid)
        } else if low <= t@[0] <= high {
            Ok((t@[0] as int - low as int) as u8)
        } else {
            Err(out_of_range)
        },
    }
}

/// The column of a shot, a letter from A to J.
pub open spec fn x_coordinate(text: Option<String>) -> Result<u8, Seq<char>> {
    coordinate(
        text,
        'A',
        'J',
        "You must provide an X coordinate"@,
        "Invalid X coordinate"@,
        "X coordinate must be between A and J"@,
    )
}

/// The row of a shot, a digit from 0 to 9.
pub open spec fn y_coordinate(text: Option<String>) -> Result<u8, Seq<char>> {
    coordinate(
        text,
        '0',
        '9',
        "You must provide a Y coordinate"@,
        "Invalid Y coordinate"@,
        "Y coordinate must be between 0 and 9"@,
    )
}

/// The column and the row of a shot, or what is wrong with the column, or
/// else with the row.
pub open spec fn coordinates_spec(x: Option<String>, y: Option<String>) -> Result<
    (u8, u8),
    Seq<char>,
> {
    match x_coordinate(x) {
        Err(e) => Err(e),
        Ok(column) => match y_coordinate(y) {
            Err(e) => Err(e),
            Ok(row) => Ok((column, row)),
        },
    }
}

/// What the form says of a shot, or the first thing that is wrong with it,
/// in this order: the common fields, the coordinates, the target.
pub open spec fn unmarshal_fire_spec(idata: FormData) -> Result<
    (Seq<char>, Seq<char>, Seq<u8>, Seq<char>, Seq<char>, u8, u8),
    Seq<char>,
> {
    match unmarshal_data_spec(idata) {
        Err(e) => Err(e),
        Ok(common) => match coordinates_spec(idata.x, idata.y) {
            Err(e) => Err(e),
            Ok(at) => match idata.targetfleet {
                None => Err("You must provide a Target Fleet ID"@),
                Some(target) => Ok((common.0, common.1, common.2, common.3, target@, at.0, at.1)),
            },
        },
    }
}

/// The outcome that the form reports: "Hit" or "Miss".
pub open spec fn report_field(text: Option<String>) -> Result<Seq<char>, Seq<char>> {
    match text {
        None => Err("You must provide a Report value"@),
        Some(r) => if r@ == "Hit"@ || r@ == "Miss"@ {
            Ok(r@)
        } else {
            Err("Report must be either 'Hit' or 'Miss'"@)
        },
    }
}

/// What the form says of a report, or the first thing that is wrong with
/// it, in this order: the common fields, the coordinates, the outcome.
pub open spec fn unmarshal_report_spec(idata: FormData) -> Result<
    (Seq<char>, Seq<char>, Seq<u8>, Seq<char>, Seq<char>, u8, u8),
    Seq<char>,
> {
    match unmarshal_data_spec(idata) {
        Err(e) => Err(e),
        Ok(common) => match coordinates_spec(idata.rx, idata.ry) {
            Err(e) => Err(e),
            Ok(at) => match report_field(idata.report) {
                Err(e) => Err(e),
                Ok(report) => Ok((common.0, common.1, common.2, common.3, report, at.0, at.1)),
            },
        },
    }
}

/// The exec result `out` is what the specification `expected` says, text
/// for text.
pub open spec fn same_common(
    out: Result<(String, String, Vec<u8>, String), String>,
    expected: Result<(Seq<char>, Seq<char>, Seq<u8>, Seq<char>), Seq<char>>,
) -> bool {
    match out {
        Ok(v) => expected == Ok::<(Seq<char>, Seq<char>, Seq<u8>, Seq<char>), Seq<char>>(
            (v.0@, v.1@, v.2@, v.3@),
        ),
        Err(e) => expected == Err::<(Seq<char>, Seq<char>, Seq<u8>, Seq<char>), Seq<char>>(e@),
    }
}

/// The exec result `out` is what the specification `expected` says, text
/// for text.
pub open spec fn same_shot(
    out: Result<(String, String, Vec<u8>, String, String, u8, u8), String>,
    expected: Result<(Seq<char>, Seq<char>, Seq<u8>, Seq<char>, Seq<char>, u8, u8), Seq<char>>,
) -> bool {
    match out {
        Ok(v) => expected == Ok::<
            (Seq<char>, Seq<char>, Seq<u8>, Seq<char>, Seq<char>, u8, u8),
            Seq<char>,
        >((v.0@, v.1@, v.2@, v.3@, v.4@, v.5, v.6)),
        Err(e) => expected == Err::<
            (Seq<char>, Seq<char>, Seq<u8>, Seq<char>, Seq<char>, u8, u8),
            Seq<char>,
        >(e@),
    }
}

/// A number in the making: what has been read of one piece of the list.
struct Number {
    /// A character has been read.
    started: bool,
    /// The first character was a plus sign.
    signed: bool,
    /// A character after the sign has been read.
    has_digit: bool,
    /// The characters after the sign are digits that stand for at most 255.
    valid: bool,
    /// What these digits stand for, where `valid` holds.
    value: u8,
}

/// The number `n` is what reading the piece `piece` gives.
spec fn number_reads(n: Number, piece: Seq<char>) -> bool {
    let digits = number_digits(piece);
    &&& n.started == (piece.len() > 0)
    &&& n.signed == (piece.len() > 0 && piece[0] == '+')
    &&& n.has_digit == (digits.len() > 0)
    &&& n.valid == ((forall|i: int| 0 <= i < digits.len() ==> is_digit(#[trigger] digits[i]))
        && digits_value(digits) <= 255)
    &&& n.valid ==> n.value == digits_value(digits)
}

proof fn lemma_digits_grow(digits: Seq<char>)
    requires
        forall|i: int| 0 <= i < digits.len() ==> is_digit(#[trigger] digits[i]),
    ensures
        digits_value(digits) >= 0,
        digits.len() > 0 ==> digits_value(digits) >= digits_value(digits.drop_last()),
    decreases digits.len(),
{
    if digits.len() > 0 {
        lemma_digits_grow(digits.drop_last());
        assert(is_digit(digits[digits.len() - 1]));
    }
}

impl Number {
    /// Nothing has been read yet.
    fn new() -> (n: Number)
        ensures
            number_reads(n, Seq::<char>::empty()),
    {
        Number { started: false, signed: false, has_digit: false, valid: true, value: 0 }
    }

    /// Reads one more character of the piece.
    fn read(self, c: char, Ghost(piece): Ghost<Seq<char>>) -> (next: Number)
        requires
            number_reads(self, piece),
        ensures
            number_reads(next, piece.push(c)),
    {
        let ghost longer = piece.push(c);
        let ghost digits = number_digits(piece);
        let ghost more = number_digits(longer);
        if !self.started && c == '+' {
            proof {
                assert(more =~= Seq::<char>::empty());
            }
            return Number { started: true, signed: true, has_digit: false, valid: true, value: 0 };
        }
        proof {
            assert(more =~= digits.push(c));
            assert(more.drop_last() =~= digits);
            assert(more[more.len() - 1] == c);
            if forall|i: int| 0 <= i < more.len() ==> is_digit(#[trigger] more[i]) {
                assert forall|i: int| 0 <= i < digits.len() implies is_digit(
                    #[trigger] digits[i],
                ) by {
                    assert(more[i] == digits[i]);
                }
                lemma_digits_grow(more);
            }
            if (forall|i: int| 0 <= i < digits.len() ==> is_digit(#[trigger] digits[i])) && is_digit(
                c,
            ) {
                assert forall|i: int| 0 <= i < more.len() implies is_digit(#[trigger] more[i]) by {
                    if i < digits.len() {
                        assert(more[i] == digits[i]);
                    }
                }
            }
        }
        if !self.valid || !('0' <= c && c <= '9') {
            return Number {
                started: true,
                signed: self.signed,
                has_digit: true,
                valid: false,
                value: self.value,
            };
        }
        let digit: u8 = c as u8 - 48;
        if self.value > 25 || (self.value == 25 && digit > 5) {
            return Number {
                started: true,
                signed: self.signed,
                has_digit: true,
                valid: false,
                value: self.value,
            };
        }
        Number {
            started: true,
            signed: self.signed,
            has_digit: true,
            valid: true,
            value: self.value * 10 + digit,
        }
    }

    /// The byte that the piece stands for, once it has been read to its
    /// end.
    fn finish(self, Ghost(piece): Ghost<Seq<char>>) -> (byte: Option<u8>)
        requires
            number_reads(self, piece),
        ensures
            byte == parse_u8(piece),
    {
        if self.has_digit && self.valid {
            Some(self.value)
        } else {
            None
        }
    }
}

/// A copy of a text.
pub fn copy_text(text: &String) -> (copy: String)
    ensures
        copy@ == text@,
{
    text.clone()
}

/// Reads the board that a text lists: bytes in decimal, with commas between
/// them.
pub fn parse_board(text: &str) -> (board: Result<Vec<u8>, String>)
    ensures
        match board {
            Ok(cells) => parse_board_text(text@) == Ok::<Seq<u8>, Seq<char>>(cells@),
            Err(e) => parse_board_text(text@) == Err::<Seq<u8>, Seq<char>>(e@),
        },
{
    let n = text.unicode_len();
    let mut cells: Vec<u8> = Vec::new();
    let mut number = Number::new();
    let mut failed = false;
    let ghost mut piece = Seq::<char>::empty();
    let mut i: usize = 0;
    assert(text@.take(0) =~= Seq::<char>::empty());
    while i < n
        invariant
            i <= n,
            n == text@.len(),
            number_reads(number, piece),
            comma_fields(text@.take(i as int)).len() >= 1,
            comma_fields(text@.take(i as int)).last() == piece,
            !failed ==> cells@.len() == comma_fields(text@.take(i as int)).len() - 1,
            !failed ==> forall|k: int|
                0 <= k < cells@.len() ==> parse_u8(#[trigger] comma_fields(text@.take(i as int))[k])
                    == Some(cells@[k]),
            failed ==> exists|k: int|
                0 <= k < comma_fields(text@.take(i as int)).len() - 1 && parse_u8(
                    #[trigger] comma_fields(text@.take(i as int))[k],
                ) is None,
        decreases n - i,
    {
        let c = text.get_char(i);
        let ghost before = comma_fields(text@.take(i as int));
        let ghost after = comma_fields(text@.take(i + 1));
        proof {
            assert(text@.take(i + 1).drop_last() =~= text@.take(i as int));
            assert(text@.take(i + 1).last() == c);
            if failed {
                let k = choose|k: int|
                    0 <= k < before.len() - 1 && parse_u8(#[trigger] before[k]) is None;
                assert(after[k] == before[k]);
            }
        }
        if c == ',' {
            match number.finish(Ghost(piece)) {
                Some(byte) => {
                    if !failed {
                        cells.push(byte);
                    }
                },
                None => {
                    proof {
                        assert(after[before.len() - 1] == piece);
                    }
                    failed = true;
                },
            }
            number = Number::new();
            proof {
                piece = Seq::<char>::empty();
                if !failed {
                    assert forall|k: int|
                        0 <= k < cells@.len() implies parse_u8(#[trigger] after[k])
                        == Some(cells@[k]) by {
                        if k < before.len() - 1 {
                            assert(after[k] == before[k]);
                        }
                    }
                }
            }
        } else {
            number = number.read(c, Ghost(piece));
            proof {
                piece = piece.push(c);
                if !failed {
                    assert forall|k: int|
                        0 <= k < cells@.len() implies parse_u8(#[trigger] after[k])
                        == Some(cells@[k]) by {
                        assert(after[k] == before[k]);
                    }
                }
            }
        }
        i += 1;
    }
    let ghost pieces = comma_fields(text@);
    proof {
        assert(text@.take(i as int) =~= text@);
    }
    match number.finish(Ghost(piece)) {
        Some(byte) => {
            if failed {
                return Err("Invalid number in Board Placement".to_owned());
            }
            cells.push(byte);
            proof {
                assert forall|k: int|
                    0 <= k < pieces.len() implies parse_u8(#[trigger] pieces[k]) is Some by {
                    if k < pieces.len() - 1 {
                        assert(parse_u8(pieces[k]) == Some(cells@[k]));
                    }
                }
                assert(cells@ =~= Seq::new(pieces.len(), |k: int| parse_u8(pieces[k]).unwrap()));
            }
            Ok(cells)
        },
        None => {
            proof {
                assert(parse_u8(pieces[pieces.len() - 1]) is None);
            }
            Err("Invalid number in Board Placement".to_owned())
        },
    }
}

/// Reads an identifier: the field must be there and must not be empty.
fn read_id(text: &Option<String>, missing: &str, empty: &str) -> (id: Result<String, String>)
    ensures
        match id {
            Ok(t) => id_field(*text, missing@, empty@) == Ok::<Seq<char>, Seq<char>>(t@),
            Err(e) => id_field(*text, missing@, empty@) == Err::<Seq<char>, Seq<char>>(e@),
        },
{
    match text {
        None => Err(missing.to_owned()),
        Some(t) => {
            if t.as_str().unicode_len() == 0 {
                Err(empty.to_owned())
            } else {
                Ok(copy_text(t))
            }
        },
    }
}

/// Reads the board of the form.
fn read_board(text: &Option<String>) -> (board: Result<Vec<u8>, String>)
    ensures
        match board {
            Ok(cells) => board_field(*text) == Ok::<Seq<u8>, Seq<char>>(cells@),
            Err(e) => board_field(*text) == Err::<Seq<u8>, Seq<char>>(e@),
        },
{
    match text {
        None => Err("You must provide a Board Placement".to_owned()),
        Some(t) => match percent_decode_text(t.as_str()) {
            None => Err("Invalid Board Placement".to_owned()),
            Some(decoded) => parse_board(decoded.as_str()),
        },
    }
}

/// Reads the fields that every action needs: the game, the fleet, the board
/// and the nonce.
pub fn unmarshal_data(idata: &FormData) -> (out: Result<(String, String, Vec<u8>, String), String>)
    ensures
        same_common(out, unmarshal_data_spec(*idata)),
{
    let gameid = match read_id(
        &idata.gameid,
        "You must provide a Game ID",
        "Game ID cannot be an empty string",
    ) {
        Ok(id) => id,
        Err(e) => {
            return Err(e);
        },
    };
    let fleetid = match read_id(
        &idata.fleetid,
        "You must provide a Fleet ID",
        "Fleet ID cannot be an empty string",
    ) {
        Ok(id) => id,
        Err(e) => {
            return Err(e);
        },
    };
    let random = match &idata.random {
        Some(r) => copy_text(r),
        None => {
            return Err("You must provide a Random Seed".to_owned());
        },
    };
    let board = match read_board(&idata.board) {
        Ok(b) => b,
        Err(e) => {
            return Err(e);
        },
    };
    Ok((gameid, fleetid, board, random))
}

/// Reads one coordinate from the first character of a field.
fn read_coordinate(
    text: &Option<String>,
    low: char,
    high: char,
    missing: &str,
    invalid: &str,
    out_of_range: &str,
) -> (at: Result<u8, String>)
    requires
        low <= high,
        high as int - low as int <= 255,
        high as int <= 127,
    ensures
        match at {
            Ok(v) => coordinate(*text, low, high, missing@, invalid@, out_of_range@) == Ok::<
                u8,
                Seq<char>,
            >(v),
            Err(e) => coordinate(*text, low, high, missing@, invalid@, out_of_range@) == Err::<
                u8,
                Seq<char>,
            >(e@),
        },
{
    match text {
        None => Err(missing.to_owned()),
        Some(t) => {
            if t.as_str().unicode_len() == 0 {
                return Err(invalid.to_owned());
            }
            let first_char = t.as_str().get_char(0);
            if low <= first_char && first_char <= high {
                Ok(first_char as u8 - low as u8)
            } else {
                Err(out_of_range.to_owned())
            }
        },
    }
}

/// Reads the coordinates of a shot: a letter from A to J for the column and
/// a digit from 0 to 9 for the row.
pub fn get_coordinates(x: &Option<String>, y: &Option<String>) -> (at: Result<(u8, u8), String>)
    ensures
        match at {
            Ok(v) => coordinates_spec(*x, *y) == Ok::<(u8, u8), Seq<char>>(v),
            Err(e) => coordinates_spec(*x, *y) == Err::<(u8, u8), Seq<char>>(e@),
        },
        at matches Ok(v) ==> v.0 < 10 && v.1 < 10,
{
    let x = match read_coordinate(
        x,
        'A',
        'J',
        "You must provide an X coordinate",
        "Invalid X coordinate",
        "X coordinate must be between A and J",
    ) {
        Ok(v) => v,
        Err(e) => {
            return Err(e);
        },
    };
    let y = match read_coordinate(
        y,
        '0',
        '9',
        "You must provide a Y coordinate",
        "Invalid Y coordinate",
        "Y coordinate must be between 0 and 9",
    ) {
        Ok(v) => v,
        Err(e) => {
            return Err(e);
        },
    };
    Ok((x, y))
}

/// Reads what a shot needs: the common fields, the coordinates and the
/// target.
pub fn unmarshal_fire(idata: &FormData) -> (out: Result<
    (String, String, Vec<u8>, String, String, u8, u8),
    String,
>)
    ensures
        same_shot(out, unmarshal_fire_spec(*idata)),
        out matches Ok(v) ==> v.5 < 10 && v.6 < 10,
{
    let (gameid, fleetid, board, random) = match unmarshal_data(idata) {
        Ok(v) => v,
        Err(e) => {
            return Err(e);
        },
    };
    let (x, y) = match get_coordinates(&idata.x, &idata.y) {
        Ok(v) => v,
        Err(e) => {
            return Err(e);
        },
    };
    let targetfleet = match &idata.targetfleet {
        Some(t) => copy_text(t),
        None => {
            return Err("You must provide a Target Fleet ID".to_owned());
        },
    };
    Ok((gameid, fleetid, board, random, targetfleet, x, y))
}

/// Reads the outcome of a report.
fn read_report(text: &Option<String>) -> (report: Result<String, String>)
    ensures
        match report {
            Ok(r) => report_field(*text) == Ok::<Seq<char>, Seq<char>>(r@),
            Err(e) => report_field(*text) == Err::<Seq<char>, Seq<char>>(e@),
        },
{
    match text {
        None => Err("You must provide a Report value".to_owned()),
        Some(r) => {
            let hit = "Hit".to_owned();
            let miss = "Miss".to_owned();
            if *r == hit || *r == miss {
                Ok(copy_text(r))
            } else {
                Err("Report must be either 'Hit' or 'Miss'".to_owned())
            }
        },
    }
}

/// Reads what a report needs: the common fields, the coordinates and the
/// outcome.
pub fn unmarshal_report(idata: &FormData) -> (out: Result<
    (String, String, Vec<u8>, String, String, u8, u8),
    String,
>)
    ensures
        same_shot(out, unmarshal_report_spec(*idata)),
        out matches Ok(v) ==> v.5 < 10 && v.6 < 10,
{
    let (gameid, fleetid, board, random) = match unmarshal_data(idata) {
        Ok(v) => v,
        Err(e) => {
            return Err(e);
        },
    };
    let (x, y) = match get_coordinates(&idata.rx, &idata.ry) {
        Ok(v) => v,
        Err(e) => {
            return Err(e);
        },
    };
    let report = match read_report(&idata.report) {
        Ok(r) => r,
        Err(e) => {
            return Err(e);
        },
    };
    Ok((gameid, fleetid, board, random, report, x, y))
}

} // verus!
