use vstd::prelude::*;

verus! {

/// Errors returned by the CHIP-8 core.
#[derive(Debug, Clone, Copy, PartialEq, Eq, Structural)]
pub enum Chip8Error {
    /// The opcode is not supported.
    UnknownOpcode(u16),
    /// A subroutine call exceeded the stack capacity.
    StackOverflow,
    /// A return was attempted with an empty stack.
    StackUnderflow,
    /// The ROM is larger than the available program memory.
    RomTooLarge { size: usize, max_size: usize },
    /// An address was outside the 4 KiB memory space.
    MemoryOutOfBounds { address: usize },
    /// A display coordinate was outside the framebuffer.
    DisplayOutOfBounds { row: usize, col: usize },
    /// A keypad value was outside the 16-key range.
    KeypadOutOfBounds { key: usize },
}

/// The text of one digit `d` (`0..16`), upper case for the letters.
pub open spec fn digit_text(d: int) -> Seq<char> {
    if d == 0 { "0"@ }
    else if d == 1 { "1"@ }
    else if d == 2 { "2"@ }
    else if d == 3 { "3"@ }
    else if d == 4 { "4"@ }
    else if d == 5 { "5"@ }
    else if d == 6 { "6"@ }
    else if d == 7 { "7"@ }
    else if d == 8 { "8"@ }
    else if d == 9 { "9"@ }
    else if d == 10 { "A"@ }
    else if d == 11 { "B"@ }
    else if d == 12 { "C"@ }
    else if d == 13 { "D"@ }
    else if d == 14 { "E"@ }
    else { "F"@ }
}

/// `n` written in decimal, with no leading zeros.
pub open spec fn decimal_text(n: nat) -> Seq<char>
    decreases n,
{
    if n < 10 {
        digit_text(n as int)
    } else {
        decimal_text(n / 10) + digit_text((n % 10) as int)
    }
}

/// `n` written in upper-case hexadecimal, with no leading zeros.
pub open spec fn hex_text(n: nat) -> Seq<char>
    decreases n,
{
    if n < 16 {
        digit_text(n as int)
    } else {
        hex_text(n / 16) + digit_text((n % 16) as int)
    }
}

/// `n` as `0x` followed by at least four upper-case hexadecimal digits.
pub open spec fn padded_hex(n: nat) -> Seq<char> {
    let zeros = if n < 0x10 {
        "000"@
    } else if n < 0x100 {
        "00"@
    } else if n < 0x1000 {
        "0"@
    } else {
        Seq::empty()
    };
    "0x"@ + zeros + hex_text(n)
}

/// The human-readable message of each error.
pub open spec fn error_text(e: Chip8Error) -> Seq<char> {
    match e {
        Chip8Error::UnknownOpcode(op) => "unknown opcode: "@ + padded_hex(op as nat),
        Chip8Error::StackOverflow => "stack overflow: exceeded 16 nested calls"@,
        Chip8Error::StackUnderflow => "stack underflow: RET with no matching CALL"@,
        Chip8Error::RomTooLarge { size, max_size } => "ROM too large: "@ + decimal_text(
            size as nat,
        ) + " bytes, max is "@ + decimal_text(max_size as nat) + " bytes"@,
        Chip8Error::MemoryOutOfBounds { address } => "out of bounds memory access at address: "@
            + padded_hex(address as nat),
        Chip8Error::DisplayOutOfBounds { row, col } => "out of bounds display access at row "@
            + decimal_text(row as nat) + ", column "@ + decimal_text(col as nat),
        Chip8Error::KeypadOutOfBounds { key } => "out of bounds keypad key: "@ + decimal_text(
            key as nat,
        ),
    }
}

/// Appends the text of one digit.
fn push_digit(s: &mut String, d: usize)
    requires
        d < 16,
    ensures
        final(s)@ == old(s)@ + digit_text(d as int),
{
    if d == 0 { s.append("0"); }
    else if d == 1 { s.append("1"); }
    else if d == 2 { s.append("2"); }
    else if d == 3 { s.append("3"); }
    else if d == 4 { s.append("4"); }
    else if d == 5 { s.append("5"); }
    else if d == 6 { s.append("6"); }
    else if d == 7 { s.append("7"); }
    else if d == 8 { s.append("8"); }
    else if d == 9 { s.append("9"); }
    else if d == 10 { s.append("A"); }
    else if d == 11 { s.append("B"); }
    else if d == 12 { s.append("C"); }
    else if d == 13 { s.append("D"); }
    else if d == 14 { s.append("E"); }
    else { s.append("F"); }
}

/// Appends `n` in decimal.
fn push_decimal(s: &mut String, n: usize)
    ensures
        final(s)@ == old(s)@ + decimal_text(n as nat),
    decreases n,
{
    if n >= 10 {
        push_decimal(s, n / 10);
    }
    push_digit(s, n % 10);
    proof {
        if n >= 10 {
            assert(s@ =~= old(s)@ + (decimal_text((n / 10) as nat) + digit_text((n % 10) as int)));
        } else {
            assert(s@ =~= old(s)@ + digit_text(n as int));
        }
    }
}

/// Appends `n` in upper-case hexadecimal.
fn push_hex(s: &mut String, n: usize)
    ensures
        final(s)@ == old(s)@ + hex_text(n as nat),
    decreases n,
{
    if n >= 16 {
        push_hex(s, n / 16);
    }
    push_digit(s, n % 16);
    proof {
        if n >= 16 {
            assert(s@ =~= old(s)@ + (hex_text((n / 16) as nat) + digit_text((n % 16) as int)));
        } else {
            assert(s@ =~= old(s)@ + digit_text(n as int));
        }
    }
}

/// Appends `n` as `0x` and at least four upper-case hexadecimal digits.
fn push_padded_hex(s: &mut String, n: usize)
    ensures
        final(s)@ == old(s)@ + padded_hex(n as nat),
{
    s.append("0x");
    let ghost after_prefix = s@;
    if n < 0x10 {
        s.append("000");
    } else if n < 0x100 {
        s.append("00");
    } else if n < 0x1000 {
        s.append("0");
    }
    let ghost after_zeros = s@;
    push_hex(s, n);
    proof {
        let zeros = after_zeros.subrange(after_prefix.len() as int, after_zeros.len() as int);
        assert(s@ =~= old(s)@ + ("0x"@ + zeros + hex_text(n as nat)));
        if n < 0x10 {
            assert(zeros =~= "000"@);
        } else if n < 0x100 {
            assert(zeros =~= "00"@);
        } else if n < 0x1000 {
            assert(zeros =~= "0"@);
        } else {
            assert(zeros =~= Seq::<char>::empty());
        }
    }
}

impl Chip8Error {
    /// The human-readable message of the error, as the desktop front end shows it.
    pub fn message(&self) -> (s: String)
        ensures
            s@ == error_text(*self),
    {
        let mut s = String::new();
        match *self {
            Chip8Error::UnknownOpcode(op) => {
                s.append("unknown opcode: ");
                push_padded_hex(&mut s, op as usize);
            },
            Chip8Error::StackOverflow => {
                s.append("stack overflow: exceeded 16 nested calls");
            },
            Chip8Error::StackUnderflow => {
                s.append("stack underflow: RET with no matching CALL");
            },
            Chip8Error::RomTooLarge { size, max_size } => {
                s.append("ROM too large: ");
                push_decimal(&mut s, size);
                s.append(" bytes, max is ");
                push_decimal(&mut s, max_size);
                s.append(" bytes");
            },
            Chip8Error::MemoryOutOfBounds { address } => {
                s.append("out of bounds memory access at address: ");
                push_padded_hex(&mut s, address);
            },
            Chip8Error::DisplayOutOfBounds { row, col } => {
                s.append("out of bounds display access at row ");
                push_decimal(&mut s, row);
                s.append(", column ");
                push_decimal(&mut s, col);
            },
            Chip8Error::KeypadOutOfBounds { key } => {
                s.append("out of bounds keypad key: ");
                push_decimal(&mut s, key);
            },
        }
        s
    }
}

} // verus!
