use vstd::prelude::*;

use crate::instruction::{all_wf, Instruction};

verus! {

/// Why a line is not an instruction.
#[derive(Debug, Clone, Copy, PartialEq, Eq, Structural)]
pub enum ParseError {
    /// The line does not start with an action character followed by a digit.
    MalformedLine,
    /// The run of digits is too large for an `i64`.
    InvalidMagnitude,
    /// A turn by degrees that are not a multiple of 90.
    InvalidRotation(i64),
    /// An action character that names no action.
    UnknownAction(char),
}

/// A line that could not be read, with its index among the lines.
#[derive(Debug, Clone, Copy, PartialEq, Eq, Structural)]
pub struct LineError {
    pub line: usize,
    pub error: ParseError,
}

pub open spec fn is_digit(c: char) -> bool {
    '0' <= c <= '9'
}

/// A character that may stand in the action position: an ASCII letter, digit
/// or underscore.
pub open spec fn is_action_char(c: char) -> bool {
    ||| 'A' <= c <= 'Z'
    ||| 'a' <= c <= 'z'
    ||| is_digit(c)
    ||| c == '_'
}

pub open spec fn digit_value(c: char) -> int {
    (c as u32) as int - ('0' as u32) as int
}

/// The index just past the run of digits in `s` that starts at `j`.
pub open spec fn digit_run_end(s: Seq<char>, j: int) -> int
    decreases s.len() - j,
{
    if 0 <= j < s.len() && is_digit(s[j]) {
        digit_run_end(s, j + 1)
    } else {
        j
    }
}

/// The number that the decimal digits `d` write.
pub open spec fn digits_value(d: Seq<char>) -> int
    decreases d.len(),
{
    if d.len() == 0 {
        0
    } else {
        10 * digits_value(d.drop_last()) + digit_value(d.last())
    }
}

/// The instruction that action `a` with magnitude `v` stands for.
pub open spec fn action_instruction(a: char, v: i64) -> Result<Instruction, ParseError> {
    if a == 'N' {
        Ok(Instruction::North(v))
    } else if a == 'S' {
        Ok(Instruction::South(v))
    } else if a == 'E' {
        Ok(Instruction::East(v))
    } else if a == 'W' {
        Ok(Instruction::West(v))
    } else if a == 'F' {
        Ok(Instruction::Forward(v))
    } else if a == 'R' || a == 'L' {
        if v % 90 != 0 {
            Err(ParseError::InvalidRotation(v))
        } else if a == 'R' {
            Ok(Instruction::Right(v))
        } else {
            Ok(Instruction::Left(v))
        }
    } else {
        Err(ParseError::UnknownAction(a))
    }
}

/// What a line reads as: one action character, then a run of decimal digits
/// giving the magnitude; whatever follows the digits is ignored.
pub open spec fn parse_line(s: Seq<char>) -> Result<Instruction, ParseError> {
    if s.len() < 2 || !is_action_char(s[0]) || !is_digit(s[1]) {
        Err(ParseError::MalformedLine)
    } else {
        let v = digits_value(s.subrange(1, digit_run_end(s, 1)));
        if v > i64::MAX {
            Err(ParseError::InvalidMagnitude)
        } else {
            action_instruction(s[0], v as i64)
        }
    }
}

proof fn lemma_digits_value_nonneg(d: Seq<char>)
    requires
        forall|k: int| 0 <= k < d.len() ==> is_digit(#[trigger] d[k]),
    ensures
        digits_value(d) >= 0,
    decreases d.len(),
{
    if d.len() > 0 {
        lemma_digits_value_nonneg(d.drop_last());
    }
}

proof fn lemma_digit_run(s: Seq<char>, j: int)
    requires
        0 <= j <= s.len(),
    ensures
        j <= digit_run_end(s, j) <= s.len(),
        forall|k: int| j <= k < digit_run_end(s, j) ==> is_digit(#[trigger] s[k]),
    decreases s.len() - j,
{
    if j < s.len() && is_digit(s[j]) {
        lemma_digit_run(s, j + 1);
    }
}

/// A line that reads as an instruction reads as a well-formed one.
proof fn lemma_parsed_wf(s: Seq<char>)
    requires
        parse_line(s) is Ok,
    ensures
        parse_line(s)->Ok_0.wf(),
{
    lemma_digit_run(s, 1);
    let d = s.subrange(1, digit_run_end(s, 1));
    assert forall|k: int| 0 <= k < d.len() implies is_digit(#[trigger] d[k]) by {
        assert(d[k] == s[k + 1]);
    }
    lemma_digits_value_nonneg(d);
}

/// The lines that `lines` holds read as instructions, as long as they all read.
pub open spec fn all_parse(lines: Seq<&str>) -> bool {
    forall|k: int| 0 <= k < lines.len() ==> (#[trigger] parse_line(lines[k]@)) is Ok
}

/// Reads each line as one instruction, in order. The first line that does not
/// read stops the whole reading, and its index and error come back.
pub fn read_instructions(lines: &[&str]) -> (r: Result<Vec<Instruction>, LineError>)
    ensures
        r is Ok <==> all_parse(lines@),
        r matches Ok(v) ==> {
            &&& v@.len() == lines@.len()
            &&& forall|k: int| 0 <= k < lines@.len() ==> Ok::<Instruction, ParseError>(#[trigger] v@[k]) == parse_line(lines@[k]@)
            &&& all_wf(v@)
        },
        r matches Err(e) ==> {
            &&& e.line < lines@.len()
            &&& all_parse(lines@.take(e.line as int))
            &&& parse_line(lines@[e.line as int]@) == Err::<Instruction, ParseError>(e.error)
        },
{
    let mut instructions: Vec<Instruction> = Vec::new();
    let mut i: usize = 0;
    while i < lines.len()
        invariant
            i <= lines@.len(),
            instructions@.len() == i,
            forall|k: int| 0 <= k < i ==> Ok::<Instruction, ParseError>(#[trigger] instructions@[k]) == parse_line(lines@[k]@),
            all_wf(instructions@),
        decreases lines@.len() - i,
    {
        match parse_instruction(lines[i]) {
            Ok(instruction) => {
                proof {
                    lemma_parsed_wf(lines@[i as int]@);
                }
                instructions.push(instruction);
            },
            Err(error) => {
                assert(all_parse(lines@.take(i as int))) by {
                    assert forall|k: int| 0 <= k < i implies (#[trigger] parse_line(lines@.take(i as int)[k]@)) is Ok by {
                        assert(lines@.take(i as int)[k] == lines@[k]);
                        assert(Ok::<Instruction, ParseError>(instructions@[k]) == parse_line(lines@[k]@));
                    }
                }
                return Err(LineError { line: i, error });
            },
        }
        i = i + 1;
    }
    assert(all_parse(lines@)) by {
        assert forall|k: int| 0 <= k < lines@.len() implies (#[trigger] parse_line(lines@[k]@)) is Ok by {
            assert(Ok::<Instruction, ParseError>(instructions@[k]) == parse_line(lines@[k]@));
        }
    }
    Ok(instructions)
}

fn is_digit_char(c: char) -> (r: bool)
    ensures
        r == is_digit(c),
{
    '0' <= c && c <= '9'
}

/// Reads one line as an instruction.
pub fn parse_instruction(line: &str) -> (r: Result<Instruction, ParseError>)
    ensures
        r == parse_line(line@),
{
    let n = line.unicode_len();
    if n < 2 {
        return Err(ParseError::MalformedLine);
    }
    let a = line.get_char(0);
    let first = line.get_char(1);
    let is_action = ('A' <= a && a <= 'Z') || ('a' <= a && a <= 'z') || is_digit_char(a) || a
        == '_';
    if !is_action || !is_digit_char(first) {
        return Err(ParseError::MalformedLine);
    }
    let mut j: usize = 1;
    let mut value: i64 = 0;
    let mut too_large = false;
    while j < n && is_digit_char(line.get_char(j))
        invariant
            n == line@.len(),
            1 <= j <= n,
            digit_run_end(line@, 1) == digit_run_end(line@, j as int),
            forall|k: int| 1 <= k < j ==> is_digit(#[trigger] line@[k]),
            !too_large ==> value as int == digits_value(line@.subrange(1, j as int)),
            too_large ==> digits_value(line@.subrange(1, j as int)) > i64::MAX,
        decreases n - j,
    {
        let c = line.get_char(j);
        let d = (c as u32 - '0' as u32) as i64;
        proof {
            let prev = line@.subrange(1, j as int);
            let next = line@.subrange(1, j + 1);
            assert(next.drop_last() =~= prev);
            assert(next.last() == c);
            lemma_digits_value_nonneg(prev);
        }
        if !too_large {
            match value.checked_mul(10) {
                Some(tens) => match tens.checked_add(d) {
                    Some(v) => value = v,
                    None => too_large = true,
                },
                None => too_large = true,
            }
        }
        j = j + 1;
    }
    if too_large {
        return Err(ParseError::InvalidMagnitude);
    }
    if a == 'N' {
        Ok(Instruction::North(value))
    } else if a == 'S' {
        Ok(Instruction::South(value))
    } else if a == 'E' {
        Ok(Instruction::East(value))
    } else if a == 'W' {
        Ok(Instruction::West(value))
    } else if a == 'F' {
        Ok(Instruction::Forward(value))
    } else if a == 'R' || a == 'L' {
        if value % 90 != 0 {
            Err(ParseError::InvalidRotation(value))
        } else if a == 'R' {
            Ok(Instruction::Right(value))
        } else {
            Ok(Instruction::Left(value))
        }
    } else {
        Err(ParseError::UnknownAction(a))
    }
}

} // verus!
