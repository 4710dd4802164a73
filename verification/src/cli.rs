//! The run as a whole: parsing the argument list into a request, decoding
//! the two sysfs readings, and planning the value to write back.

use crate::brightness::spec_next;
use crate::brightness::spec_step;
use crate::brightness::next_brightness;
use crate::brightness::step_size;
use crate::brightness::Direction;
use crate::device::device_of;
use crate::device::direction_of;
use crate::device::parse_device;
use crate::device::parse_direction;
use crate::device::Device;
use crate::text::decimal_value;
use crate::text::digits_of;
use crate::text::is_valid_u32_text;
use crate::text::parse_u32_text;
use crate::text::u32_text_value;
use vstd::prelude::*;

verus! {

/// A validated invocation: which device to adjust, which way, and in how
/// many steps the range from 0 to the maximum is divided.
#[derive(Clone, Copy, Debug, PartialEq, Eq, Structural)]
pub struct Request {
    pub device: Device,
    pub direction: Direction,
    pub total_steps: u32,
}

/// What an argument list asks for: too few arguments is the help path, a
/// full argument list a brightness adjustment.
#[derive(Clone, Copy, Debug, PartialEq, Eq, Structural)]
pub enum ParseOutcome {
    Usage,
    Run(Request),
}

/// The fatal failures of a run. An unreadable or unwritable sysfs file is
/// reported by the caller that does the file access, not here.
#[derive(Clone, Copy, Debug, PartialEq, Eq, Structural)]
pub enum CommandError {
    /// The selector token names neither the keyboard nor the screen.
    InvalidSelector,
    /// The step-count argument is not a positive decimal integer.
    InvalidStepCount,
    /// A sysfs file's content is not an unsigned decimal integer.
    InvalidReading,
}

/// The default number of steps from 0 to the maximum brightness.
pub const DEFAULT_TOTAL_STEPS: u32 = 10;

/// The step count a third argument selects: a decimal text worth a positive
/// `u32`, anything else rejected.
pub open spec fn spec_parse_steps(s: Seq<u8>) -> Option<u32> {
    if is_valid_u32_text(s) && u32_text_value(s) > 0 {
        Some(u32_text_value(s) as u32)
    } else {
        None
    }
}

/// What an argument list (without the program name) asks for. Fewer than two
/// arguments is the help path; an unsupported selector fails before any file
/// is named; a third argument must be a positive step count, and its absence
/// means the default.
pub open spec fn spec_parse_invocation(args: Seq<Seq<u8>>) -> Result<ParseOutcome, CommandError> {
    if args.len() < 2 {
        Ok(ParseOutcome::Usage)
    } else if device_of(args[0]) is Unsupported {
        Err(CommandError::InvalidSelector)
    } else if args.len() >= 3 {
        match spec_parse_steps(args[2]) {
            Some(n) => Ok(
                ParseOutcome::Run(
                    Request {
                        device: device_of(args[0]),
                        direction: direction_of(args[1]),
                        total_steps: n,
                    },
                ),
            ),
            None => Err(CommandError::InvalidStepCount),
        }
    } else {
        Ok(
            ParseOutcome::Run(
                Request {
                    device: device_of(args[0]),
                    direction: direction_of(args[1]),
                    total_steps: DEFAULT_TOTAL_STEPS,
                },
            ),
        )
    }
}

pub fn parse_steps(token: &[u8]) -> (r: Option<u32>)
    ensures
        r == spec_parse_steps(token@),
{
    match parse_u32_text(token) {
        Some(n) if n > 0 => Some(n),
        _ => None,
    }
}

pub fn parse_invocation(args: &Vec<Vec<u8>>) -> (r: Result<ParseOutcome, CommandError>)
    ensures
        r == spec_parse_invocation(args.deep_view()),
        r matches Ok(ParseOutcome::Run(req)) ==> !(req.device is Unsupported) && req.total_steps
            > 0,
{
    proof {
        assert(args.deep_view().len() == args@.len());
        assert forall|k: int| 0 <= k < args@.len() implies args.deep_view()[k] == args@[k]@ by {
            assert(args.deep_view()[k] =~= args@[k]@);
        }
    }
    if args.len() < 2 {
        return Ok(ParseOutcome::Usage);
    }
    let device = parse_device(args[0].as_slice());
    if device == Device::Unsupported {
        return Err(CommandError::InvalidSelector);
    }
    let direction = parse_direction(args[1].as_slice());
    let total_steps: u32 = if args.len() >= 3 {
        match parse_steps(args[2].as_slice()) {
            Some(n) => n,
            None => {
                return Err(CommandError::InvalidStepCount);
            }
        }
    } else {
        DEFAULT_TOTAL_STEPS
    };
    Ok(ParseOutcome::Run(Request { device, direction, total_steps }))
}

/// What a sysfs brightness file's bytes are worth: the trailing byte (the
/// newline sysfs appends) is dropped whenever the content is longer than one
/// byte, and the rest must be an unsigned decimal integer.
pub open spec fn spec_reading(content: Seq<u8>) -> Result<u32, CommandError> {
    let text = if content.len() > 1 {
        content.drop_last()
    } else {
        content
    };
    if is_valid_u32_text(text) {
        Ok(u32_text_value(text) as u32)
    } else {
        Err(CommandError::InvalidReading)
    }
}

/// Decoding of one sysfs brightness reading from the raw file content.
pub fn brightness_reading(content: &[u8]) -> (r: Result<u32, CommandError>)
    ensures
        r == spec_reading(content@),
{
    let text: &[u8] = if content.len() > 1 {
        vstd::slice::slice_subrange(content, 0, content.len() - 1)
    } else {
        content
    };
    proof {
        if content@.len() > 1 {
            assert(text@ =~= content@.drop_last());
        }
    }
    match parse_u32_text(text) {
        Some(n) => Ok(n),
        None => Err(CommandError::InvalidReading),
    }
}

/// The value a run writes back, from the raw contents of the two sysfs
/// files: both readings decoded, then one clamped step taken from the
/// current value. A run fails on the maximum's content before it looks at
/// the current value's content.
pub open spec fn spec_plan(
    req: Request,
    max_content: Seq<u8>,
    current_content: Seq<u8>,
) -> Result<u32, CommandError>
    recommends
        req.total_steps > 0,
{
    match spec_reading(max_content) {
        Err(e) => Err(e),
        Ok(max) => match spec_reading(current_content) {
            Err(e) => Err(e),
            Ok(current) => Ok(
                spec_next(
                    current,
                    max,
                    (spec_step(max, req.total_steps)) as u32,
                    req.direction,
                ) as u32,
            ),
        },
    }
}

pub fn plan_new_value(req: &Request, max_content: &[u8], current_content: &[u8]) -> (r: Result<
    u32,
    CommandError,
>)
    requires
        req.total_steps > 0,
    ensures
        r == spec_plan(*req, max_content@, current_content@),
        spec_reading(max_content@) is Ok && spec_reading(current_content@) is Ok && spec_reading(
            current_content@,
        )->Ok_0 <= spec_reading(max_content@)->Ok_0 ==> r is Ok && r->Ok_0 <= spec_reading(
            max_content@,
        )->Ok_0,
{
    let max = match brightness_reading(max_content) {
        Ok(m) => m,
        Err(e) => {
            return Err(e);
        }
    };
    let current = match brightness_reading(current_content) {
        Ok(c) => c,
        Err(e) => {
            return Err(e);
        }
    };
    let step = step_size(max, req.total_steps);
    proof {
        if current <= max {
            crate::brightness::lemma_next_stays_in_range(current, max, step, req.direction);
        }
    }
    Ok(next_brightness(current, max, step, req.direction))
}

/// Omitting the step-count argument asks for exactly what passing the
/// default `"10"` asks for: the two argument lists parse to the same
/// outcome.
pub proof fn lemma_default_steps_explicit(args: Seq<Seq<u8>>)
    requires
        args.len() == 2,
    ensures
        spec_parse_invocation(args) == spec_parse_invocation(args.push(seq![0x31u8, 0x30u8])),
{
    let ten = seq![0x31u8, 0x30u8];
    let with = args.push(ten);
    assert(with[0] == args[0]);
    assert(with[1] == args[1]);
    assert(with[2] == ten);
    assert(ten.drop_last() =~= seq![0x31u8]);
    assert(seq![0x31u8].drop_last() =~= Seq::<u8>::empty());
    assert(decimal_value(Seq::<u8>::empty()) == 0);
    assert(decimal_value(seq![0x31u8]) == 1);
    assert(decimal_value(ten) == 10);
    assert(digits_of(ten) == ten);
    assert(spec_parse_steps(ten) == Some(DEFAULT_TOTAL_STEPS));
}

} // verus!
