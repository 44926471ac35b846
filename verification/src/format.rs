//! The text that the debugger shows: numbers in hexadecimal, the register
//! dump and the lines of a backtrace.

use crate::registers::RegisterSet;
use crate::unwind::{Backtrace, StackFrame};
use vstd::prelude::*;
use vstd::string::StringExecFns;

verus! {

/// The hexadecimal digit of a value below 16, in lower case.
pub open spec fn hex_digit(d: nat) -> char {
    seq!['0', '1', '2', '3', '4', '5', '6', '7', '8', '9', 'a', 'b', 'c', 'd', 'e', 'f'][d as int]
}

/// The hexadecimal digits of `n`, most significant first, without leading
/// zeros; a single `0` for zero.
pub open spec fn hex_digits(n: nat) -> Seq<char>
    decreases n,
{
    if n < 16 {
        seq![hex_digit(n)]
    } else {
        hex_digits(n / 16).push(hex_digit(n % 16))
    }
}

/// `n` as the debugger shows it: `0x` and the hexadecimal digits.
pub open spec fn hex_text(n: nat) -> Seq<char> {
    seq!['0', 'x'] + hex_digits(n)
}

/// The decimal digits of `n`, most significant first, without leading zeros;
/// a single `0` for zero.
pub open spec fn decimal_digits(n: nat) -> Seq<char>
    decreases n,
{
    if n < 10 {
        seq![hex_digit(n)]
    } else {
        decimal_digits(n / 10).push(hex_digit(n % 10))
    }
}

/// The text of one digit.
fn digit_text(d: u64) -> (text: &'static str)
    requires
        d < 16,
    ensures
        text@ == seq![hex_digit(d as nat)],
{
    proof {
        reveal_strlit("0");
        reveal_strlit("1");
        reveal_strlit("2");
        reveal_strlit("3");
        reveal_strlit("4");
        reveal_strlit("5");
        reveal_strlit("6");
        reveal_strlit("7");
        reveal_strlit("8");
        reveal_strlit("9");
        reveal_strlit("a");
        reveal_strlit("b");
        reveal_strlit("c");
        reveal_strlit("d");
        reveal_strlit("e");
        reveal_strlit("f");
    }
    let text = match d {
        0 => "0",
        1 => "1",
        2 => "2",
        3 => "3",
        4 => "4",
        5 => "5",
        6 => "6",
        7 => "7",
        8 => "8",
        9 => "9",
        10 => "a",
        11 => "b",
        12 => "c",
        13 => "d",
        14 => "e",
        _ => "f",
    };
    assert(text@ =~= seq![hex_digit(d as nat)]);
    text
}

/// Appends the hexadecimal digits of `n` to `out`.
pub fn push_hex_digits(out: &mut String, n: u64)
    ensures
        final(out)@ == old(out)@ + hex_digits(n as nat),
    decreases n,
{
    if n >= 16 {
        push_hex_digits(out, n / 16);
    }
    let ghost before = out@;
    out.append(digit_text(n % 16));
    proof {
        if n >= 16 {
            assert(out@ =~= old(out)@ + hex_digits((n / 16) as nat).push(hex_digit((n % 16) as nat)));
        } else {
            assert(out@ =~= old(out)@ + seq![hex_digit(n as nat)]);
        }
    }
}

/// Appends the decimal digits of `n` to `out`.
pub fn push_decimal_digits(out: &mut String, n: u64)
    ensures
        final(out)@ == old(out)@ + decimal_digits(n as nat),
    decreases n,
{
    if n >= 10 {
        push_decimal_digits(out, n / 10);
    }
    out.append(digit_text(n % 10));
    proof {
        if n >= 10 {
            assert(out@ =~= old(out)@ + decimal_digits((n / 10) as nat).push(
                hex_digit((n % 10) as nat),
            ));
        } else {
            assert(out@ =~= old(out)@ + seq![hex_digit(n as nat)]);
        }
    }
}

/// `n` in hexadecimal, with `0x` before the digits.
pub fn hex(n: u64) -> (text: String)
    ensures
        text@ == hex_text(n as nat),
{
    proof {
        reveal_strlit("0x");
    }
    let mut text = String::from_str("0x");
    assert(text@ =~= seq!['0', 'x']);
    push_hex_digits(&mut text, n);
    text
}

/// One line of the register dump: two spaces, the register's name, a colon
/// and a space, and the value in hexadecimal.
pub open spec fn register_line(name: Seq<char>, value: u64) -> Seq<char> {
    "  "@ + name + ": "@ + hex_text(value as nat)
}

/// One line of the register dump.
pub fn format_register(name: &str, value: u64) -> (line: String)
    ensures
        line@ == register_line(name@, value),
{
    let mut line = String::from_str("  ");
    line.append(name);
    line.append(": ");
    line.append(hex(value).as_str());
    assert(line@ =~= register_line(name@, value));
    line
}

/// The register dump: a heading and one line for each register.
pub open spec fn register_dump(registers: RegisterSet) -> Seq<Seq<char>> {
    seq![
        "Registers:"@,
        register_line("rax"@, registers.rax),
        register_line("rbx"@, registers.rbx),
        register_line("rcx"@, registers.rcx),
        register_line("rdx"@, registers.rdx),
        register_line("rsi"@, registers.rsi),
        register_line("rdi"@, registers.rdi),
        register_line("rbp"@, registers.rbp),
        register_line("rsp"@, registers.rsp),
        register_line("rip"@, registers.rip),
        register_line("eflags"@, registers.eflags),
    ]
}

/// The characters of each string of a sequence.
pub open spec fn texts(lines: Seq<String>) -> Seq<Seq<char>> {
    lines.map_values(|line: String| line@)
}

/// The lines of the register dump, to be shown in their order.
pub fn print_registers(registers: &RegisterSet) -> (lines: Vec<String>)
    ensures
        texts(lines@) == register_dump(*registers),
{
    let mut lines: Vec<String> = Vec::new();
    lines.push(String::from_str("Registers:"));
    lines.push(format_register("rax", registers.rax));
    lines.push(format_register("rbx", registers.rbx));
    lines.push(format_register("rcx", registers.rcx));
    lines.push(format_register("rdx", registers.rdx));
    lines.push(format_register("rsi", registers.rsi));
    lines.push(format_register("rdi", registers.rdi));
    lines.push(format_register("rbp", registers.rbp));
    lines.push(format_register("rsp", registers.rsp));
    lines.push(format_register("rip", registers.rip));
    lines.push(format_register("eflags", registers.eflags));
    assert(texts(lines@) =~= register_dump(*registers));
    lines
}

/// The characters of an optional string.
pub open spec fn text_of(text: Option<String>) -> Option<Seq<char>> {
    match text {
        Some(t) => Some(t@),
        None => None,
    }
}

/// The line that shows a frame: the address, then the function with the file
/// and line where they are known, the function alone where only it is known,
/// and `?? ()` where the function is not known.
pub open spec fn frame_line(
    address: u64,
    function: Option<Seq<char>>,
    file: Option<Seq<char>>,
    line: Option<u64>,
) -> Seq<char> {
    match function {
        Some(name) => match (file, line) {
            (Some(file), Some(line)) => hex_text(address as nat) + " in "@ + name + " at "@ + file
                + ":"@ + decimal_digits(line as nat),
            _ => hex_text(address as nat) + " in "@ + name,
        },
        None => hex_text(address as nat) + " in ?? ()"@,
    }
}

/// The line that shows `frame`.
pub fn format_frame(frame: &StackFrame) -> (text: String)
    ensures
        text@ == frame_line(
            frame.address,
            text_of(frame.function),
            text_of(frame.file),
            frame.line,
        ),
{
    let mut text = hex(frame.address);
    match &frame.function {
        Some(name) => {
            text.append(" in ");
            text.append(name.as_str());
            match (&frame.file, frame.line) {
                (Some(file), Some(line)) => {
                    text.append(" at ");
                    text.append(file.as_str());
                    text.append(":");
                    push_decimal_digits(&mut text, line);
                },
                _ => {},
            }
        },
        None => {
            text.append(" in ?? ()");
        },
    }
    assert(text@ =~= frame_line(
        frame.address,
        text_of(frame.function),
        text_of(frame.file),
        frame.line,
    ));
    text
}

/// The lines of a backtrace: one for each frame, innermost first.
pub fn print_backtrace(trace: &Backtrace) -> (lines: Vec<String>)
    ensures
        lines@.len() == trace.frames@.len(),
        forall|i: int|
            0 <= i < lines@.len() ==> (#[trigger] lines@[i])@ == frame_line(
                trace.frames@[i].address,
                text_of(trace.frames@[i].function),
                text_of(trace.frames@[i].file),
                trace.frames@[i].line,
            ),
{
    let mut lines: Vec<String> = Vec::new();
    let mut i: usize = 0;
    while i < trace.frames.len()
        invariant
            i <= trace.frames@.len(),
            lines@.len() == i,
            forall|k: int|
                0 <= k < i ==> (#[trigger] lines@[k])@ == frame_line(
                    trace.frames@[k].address,
                    text_of(trace.frames@[k].function),
                    text_of(trace.frames@[k].file),
                    trace.frames@[k].line,
                ),
        decreases trace.frames@.len() - i,
    {
        lines.push(format_frame(&trace.frames[i]));
        i += 1;
    }
    lines
}

} // verus!
