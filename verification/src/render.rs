//! The print-time shape of the instruction stream: one output line per
//! entry, relative jumps resolved to absolute targets at their linear
//! position, and the three synthetic macros expanded to their literal
//! bodies. The text of each line is specified exactly.
use vstd::prelude::*;

verus! {

use vstd::string::StringExecFns;

use crate::emitter::Registers;
use crate::instruct::{spec_len, spec_total_len, Instruction};

/// One line of final output. Jump operands are absolute, zero-based
/// line numbers; `PutK` and `IncK` are the two lines of the
/// save-program-counter expansion.
pub enum AsmLine {
    Read,
    Write,
    Halt,
    Load(Registers),
    Store(Registers),
    Add(Registers),
    Sub(Registers),
    Get(Registers),
    Put(Registers),
    Rst(Registers),
    Inc(Registers),
    Dec(Registers),
    Shl(Registers),
    Shr(Registers),
    PutK,
    IncK,
    Jump(int),
    Jpos(int),
    Jzero(int),
}

/// The lowercase name of a register.
pub open spec fn reg_text(r: Registers) -> Seq<char> {
    match r {
        Registers::A => "a"@,
        Registers::B => "b"@,
        Registers::C => "c"@,
        Registers::D => "d"@,
        Registers::E => "e"@,
        Registers::F => "f"@,
        Registers::G => "g"@,
        Registers::H => "h"@,
    }
}

/// One decimal digit.
pub open spec fn digit_text(d: int) -> Seq<char> {
    if d == 0 {
        "0"@
    } else if d == 1 {
        "1"@
    } else if d == 2 {
        "2"@
    } else if d == 3 {
        "3"@
    } else if d == 4 {
        "4"@
    } else if d == 5 {
        "5"@
    } else if d == 6 {
        "6"@
    } else if d == 7 {
        "7"@
    } else if d == 8 {
        "8"@
    } else {
        "9"@
    }
}

/// The decimal digits of a non-negative number, most significant
/// first.
pub open spec fn dec_text(n: int) -> Seq<char>
    decreases n,
{
    if n < 10 {
        digit_text(n)
    } else {
        dec_text(n / 10) + digit_text(n % 10)
    }
}

/// A possibly negative operand in decimal.
pub open spec fn int_text(t: int) -> Seq<char> {
    if t < 0 {
        "-"@ + dec_text(-t)
    } else {
        dec_text(t)
    }
}

/// The exact text of one output line, newline included.
pub open spec fn line_text(l: AsmLine) -> Seq<char> {
    match l {
        AsmLine::Read => "READ\n"@,
        AsmLine::Write => "WRITE\n"@,
        AsmLine::Halt => "HALT\n"@,
        AsmLine::Load(r) => "LOAD "@ + reg_text(r) + "\n"@,
        AsmLine::Store(r) => "STORE "@ + reg_text(r) + "\n"@,
        AsmLine::Add(r) => "ADD "@ + reg_text(r) + "\n"@,
        AsmLine::Sub(r) => "SUB "@ + reg_text(r) + "\n"@,
        AsmLine::Get(r) => "GET "@ + reg_text(r) + "\n"@,
        AsmLine::Put(r) => "PUT "@ + reg_text(r) + "\n"@,
        AsmLine::Rst(r) => "RST "@ + reg_text(r) + "\n"@,
        AsmLine::Inc(r) => "INC "@ + reg_text(r) + "\n"@,
        AsmLine::Dec(r) => "DEC "@ + reg_text(r) + "\n"@,
        AsmLine::Shl(r) => "SHL "@ + reg_text(r) + "\n"@,
        AsmLine::Shr(r) => "SHR "@ + reg_text(r) + "\n"@,
        AsmLine::PutK => "PUT k\n"@,
        AsmLine::IncK => "INC k\n"@,
        AsmLine::Jump(t) => "JUMP "@ + int_text(t) + "\n"@,
        AsmLine::Jpos(t) => "JPOS "@ + int_text(t) + "\n"@,
        AsmLine::Jzero(t) => "JZERO "@ + int_text(t) + "\n"@,
    }
}

/// The output lines of one instruction standing at linear position
/// `pos`: relative jumps become absolute, the save-program-counter
/// form becomes two lines, and the three synthetic macros expand to
/// their shift-and-subtract bodies with their internal jumps already
/// absolute.
pub open spec fn instr_lines(i: Instruction, pos: int) -> Seq<AsmLine> {
    match i {
        Instruction::Read => seq![AsmLine::Read],
        Instruction::Write => seq![AsmLine::Write],
        Instruction::Load(r) => seq![AsmLine::Load(r)],
        Instruction::Store(r) => seq![AsmLine::Store(r)],
        Instruction::Add(r) => seq![AsmLine::Add(r)],
        Instruction::Sub(r) => seq![AsmLine::Sub(r)],
        Instruction::Get(r) => seq![AsmLine::Get(r)],
        Instruction::Put(r) => seq![AsmLine::Put(r)],
        Instruction::Rst(r) => seq![AsmLine::Rst(r)],
        Instruction::Inc(r) => seq![AsmLine::Inc(r)],
        Instruction::Dec(r) => seq![AsmLine::Dec(r)],
        Instruction::Shl(r) => seq![AsmLine::Shl(r)],
        Instruction::Shr(r) => seq![AsmLine::Shr(r)],
        Instruction::Strk => seq![AsmLine::PutK, AsmLine::IncK],
        Instruction::Jumpr(r) => seq![AsmLine::Get(r)],
        Instruction::Jump(off) => seq![AsmLine::Jump(off + pos)],
        Instruction::Jpos(off) => seq![AsmLine::Jpos(off + pos)],
        Instruction::Jzero(off) => seq![AsmLine::Jzero(off + pos)],
        Instruction::Halt => seq![AsmLine::Halt],
        Instruction::Mul => seq![
            AsmLine::Put(Registers::E),
            AsmLine::Add(Registers::E),
            AsmLine::Sub(Registers::E),
            AsmLine::Rst(Registers::F),
            AsmLine::Get(Registers::C),
            AsmLine::Jzero(pos + 19),
            AsmLine::Shr(Registers::E),
            AsmLine::Shl(Registers::E),
            AsmLine::Get(Registers::C),
            AsmLine::Sub(Registers::E),
            AsmLine::Jzero(pos + 14),
            AsmLine::Get(Registers::F),
            AsmLine::Add(Registers::B),
            AsmLine::Put(Registers::F),
            AsmLine::Shl(Registers::B),
            AsmLine::Shr(Registers::C),
            AsmLine::Get(Registers::C),
            AsmLine::Put(Registers::E),
            AsmLine::Jpos(pos + 4),
            AsmLine::Get(Registers::F),
        ],
        Instruction::Div => seq![
            AsmLine::Rst(Registers::D),
            AsmLine::Add(Registers::E),
            AsmLine::Sub(Registers::E),
            AsmLine::Jzero(pos + 24),
            AsmLine::Get(Registers::C),
            AsmLine::Sub(Registers::B),
            AsmLine::Jpos(pos + 24),
            AsmLine::Get(Registers::C),
            AsmLine::Put(Registers::E),
            AsmLine::Rst(Registers::F),
            AsmLine::Inc(Registers::F),
            AsmLine::Get(Registers::E),
            AsmLine::Sub(Registers::B),
            AsmLine::Jpos(pos + 23),
            AsmLine::Get(Registers::B),
            AsmLine::Sub(Registers::E),
            AsmLine::Put(Registers::B),
            AsmLine::Get(Registers::D),
            AsmLine::Add(Registers::F),
            AsmLine::Put(Registers::D),
            AsmLine::Shl(Registers::E),
            AsmLine::Shl(Registers::F),
            AsmLine::Jpos(pos + 11),
            AsmLine::Jpos(pos + 4),
            AsmLine::Get(Registers::D),
        ],
        Instruction::Mod => seq![
            AsmLine::Rst(Registers::D),
            AsmLine::Add(Registers::E),
            AsmLine::Sub(Registers::E),
            AsmLine::Jzero(pos + 24),
            AsmLine::Get(Registers::C),
            AsmLine::Sub(Registers::B),
            AsmLine::Jpos(pos + 25),
            AsmLine::Get(Registers::C),
            AsmLine::Put(Registers::E),
            AsmLine::Rst(Registers::F),
            AsmLine::Inc(Registers::F),
            AsmLine::Get(Registers::E),
            AsmLine::Sub(Registers::B),
            AsmLine::Jpos(pos + 23),
            AsmLine::Get(Registers::B),
            AsmLine::Sub(Registers::E),
            AsmLine::Put(Registers::B),
            AsmLine::Get(Registers::D),
            AsmLine::Add(Registers::F),
            AsmLine::Put(Registers::D),
            AsmLine::Shl(Registers::E),
            AsmLine::Shl(Registers::F),
            AsmLine::Jump(pos + 11),
            AsmLine::Jump(pos + 4),
            AsmLine::Rst(Registers::B),
            AsmLine::Get(Registers::B),
        ],
    }
}

/// The output lines of a whole stream started at position `pos`: each
/// instruction stands where the ones before it ended.
pub open spec fn stream_lines(s: Seq<Instruction>, pos: int) -> Seq<AsmLine>
    decreases s.len(),
{
    if s.len() == 0 {
        Seq::empty()
    } else {
        let pre = stream_lines(s.drop_last(), pos);
        pre + instr_lines(s.last(), pos + pre.len())
    }
}

/// The concatenated text of a line sequence.
pub open spec fn text_of(ls: Seq<AsmLine>) -> Seq<char>
    decreases ls.len(),
{
    if ls.len() == 0 {
        Seq::empty()
    } else {
        text_of(ls.drop_last()) + line_text(ls.last())
    }
}

pub proof fn lemma_text_of_push(ls: Seq<AsmLine>, l: AsmLine)
    ensures
        text_of(ls.push(l)) == text_of(ls) + line_text(l),
{
    assert(ls.push(l).drop_last() =~= ls);
    assert(ls.push(l).last() == l);
}

/// A stream is printable line for line when it holds no
/// save-program-counter entry, the one instruction whose expansion is
/// longer than its declared length.
pub open spec fn expandable(s: Seq<Instruction>) -> bool {
    forall|i: int| 0 <= i < s.len() ==> !(#[trigger] s[i] is Strk)
}

proof fn lemma_instr_lines_len(i: Instruction, pos: int)
    requires
        !(i is Strk),
    ensures
        instr_lines(i, pos).len() == spec_len(i),
{
}

/// The macro-length invariant: the emitted line count of a printable
/// stream is exactly the sum of its instructions' declared lengths.
pub proof fn lemma_stream_line_count(s: Seq<Instruction>, pos: int)
    requires
        expandable(s),
    ensures
        stream_lines(s, pos).len() == spec_total_len(s),
    decreases s.len(),
{
    if s.len() > 0 {
        assert(expandable(s.drop_last())) by {
            assert(forall|i: int|
                0 <= i < s.len() - 1 ==> s.drop_last()[i] == #[trigger] s[i]);
        }
        lemma_stream_line_count(s.drop_last(), pos);
        assert(!(s[s.len() - 1] is Strk));
        lemma_instr_lines_len(s.last(), pos + stream_lines(s.drop_last(), pos).len());
    }
}

/// Appends the decimal digits of `n`.
pub fn push_dec(out: &mut String, n: u128)
    ensures
        final(out)@ == old(out)@ + dec_text(n as int),
    decreases n,
{
    if n >= 10 {
        push_dec(out, n / 10);
    }
    let d = (n % 10) as u64;
    match d {
        0 => out.append("0"),
        1 => out.append("1"),
        2 => out.append("2"),
        3 => out.append("3"),
        4 => out.append("4"),
        5 => out.append("5"),
        6 => out.append("6"),
        7 => out.append("7"),
        8 => out.append("8"),
        _ => out.append("9"),
    }
}

/// Appends an operand that may be negative.
pub fn push_int(out: &mut String, t: i128)
    requires
        t > i128::MIN,
    ensures
        final(out)@ == old(out)@ + int_text(t as int),
{
    if t < 0 {
        out.append("-");
        push_dec(out, (-t) as u128);
    } else {
        push_dec(out, t as u128);
    }
}

/// Appends one register-operand line: the mnemonic with its trailing
/// space, the register's name, the newline.
pub fn push_reg_line(out: &mut String, mnemonic: &str, r: Registers)
    ensures
        final(out)@ == old(out)@ + (mnemonic@ + reg_text(r) + "\n"@),
{
    out.append(mnemonic);
    match r {
        Registers::A => out.append("a"),
        Registers::B => out.append("b"),
        Registers::C => out.append("c"),
        Registers::D => out.append("d"),
        Registers::E => out.append("e"),
        Registers::F => out.append("f"),
        Registers::G => out.append("g"),
        Registers::H => out.append("h"),
    }
    out.append("\n");
    proof {
        assert(out@ =~= old(out)@ + (mnemonic@ + reg_text(r) + "\n"@));
    }
}

/// Appends one jump line with an absolute target.
pub fn push_jump_line(out: &mut String, mnemonic: &str, t: i128)
    requires
        t > i128::MIN,
    ensures
        final(out)@ == old(out)@ + (mnemonic@ + int_text(t as int) + "\n"@),
{
    out.append(mnemonic);
    push_int(out, t);
    out.append("\n");
    proof {
        assert(out@ =~= old(out)@ + (mnemonic@ + int_text(t as int) + "\n"@));
    }
}

} // verus!
