//! Turning a typed answer into a setting.
use vstd::prelude::*;
use crate::cli::opt_text;
use crate::lexical::{
    decimal, decimal_text, is_digit, lemma_decimal_digits, lemma_decimal_value, parse_bounded,
    strip_eol, unsigned_value, without_eol,
};

verus! {

/// What the user typed, without the line ending.
pub open spec fn answer_text(line: Seq<char>) -> Seq<char> {
    strip_eol(line)
}

/// The text a typed line gives when `default` is offered: the line, or the
/// default when the line is empty.
pub open spec fn text_answer(line: Seq<char>, default: Seq<char>) -> Seq<char> {
    let l = answer_text(line);
    if l.len() == 0 {
        default
    } else {
        l
    }
}

/// The number a typed line gives when `default` is offered and numbers up to
/// `max` fit: the default for an empty line, the number it spells, or the
/// message that it is not a number.
pub open spec fn number_answer(line: Seq<char>, default: nat, max: nat) -> Result<nat, Seq<char>> {
    let l = answer_text(line);
    if l.len() == 0 {
        Ok(default)
    } else {
        match unsigned_value(l) {
            Some(v) => if v <= max {
                Ok(v)
            } else {
                Err("invalid number: "@ + l)
            },
            None => Err("invalid number: "@ + l),
        }
    }
}

/// The secret a typed line gives: the line, or the message that `prompt` is
/// required when it is empty.
pub open spec fn secret_answer(prompt: Seq<char>, line: Seq<char>) -> Result<Seq<char>, Seq<char>> {
    let l = answer_text(line);
    if l.len() == 0 {
        Err(prompt + " is required"@)
    } else {
        Ok(l)
    }
}

/// The question shown for a setting that has a default.
pub open spec fn question_text(prompt: Seq<char>, default: Seq<char>) -> Seq<char> {
    prompt + " ["@ + default + "]: "@
}

/// The question shown for a secret.
pub open spec fn secret_question_text(prompt: Seq<char>) -> Seq<char> {
    prompt + ": "@
}

/// The question shown for a setting that has a default.
pub fn question_line(prompt: &str, default: &str) -> (r: String)
    ensures
        r@ == question_text(prompt@, default@),
{
    let mut r = prompt.to_string();
    r.append(" [");
    r.append(default);
    r.append("]: ");
    r
}

/// The question shown for a secret.
pub fn secret_question_line(prompt: &str) -> (r: String)
    ensures
        r@ == secret_question_text(prompt@),
{
    let mut r = prompt.to_string();
    r.append(": ");
    r
}

/// Fills an empty `slot` with the typed `line`, or with `default` when the
/// line is empty; a filled slot is kept.
pub fn text(default: &str, line: &str, slot: &mut Option<String>)
    ensures
        *old(slot) is Some ==> opt_text(*final(slot)) == opt_text(*old(slot)),
        *old(slot) is None ==> opt_text(*final(slot)) == Some(text_answer(line@, default@)),
{
    if slot.is_some() {
        return ;
    }
    let l = without_eol(line);
    if l.as_str().is_empty() {
        *slot = Some(default.to_string());
    } else {
        *slot = Some(l);
    }
}

/// Reads a typed number that fits under `max`.
fn number_value(default: u64, line: &str, max: u64) -> (r: Result<u64, String>)
    ensures
        match r {
            Ok(v) => number_answer(line@, default as nat, max as nat) == Ok::<nat, Seq<char>>(
                v as nat,
            ),
            Err(e) => number_answer(line@, default as nat, max as nat) == Err::<nat, Seq<char>>(
                e@,
            ),
        },
{
    let l = without_eol(line);
    if l.as_str().is_empty() {
        return Ok(default);
    }
    match parse_bounded(l.as_str(), max) {
        Some(v) => Ok(v),
        None => {
            let mut m = "invalid number: ".to_string();
            m.append(l.as_str());
            Err(m)
        },
    }
}

/// Fills an empty `slot` with the typed number, or with `default` when the
/// line is empty; a filled slot is kept. A line that is not a number fills
/// nothing and gives the message.
pub fn number(default: u32, line: &str, slot: &mut Option<u32>) -> (r: Result<(), String>)
    ensures
        *old(slot) is Some ==> r is Ok && *final(slot) == *old(slot),
        *old(slot) is None ==> match number_answer(line@, default as nat, u32::MAX as nat) {
            Ok(v) => r is Ok && *final(slot) == Some(v as u32),
            Err(m) => r matches Err(e) && e@ == m && *final(slot) is None,
        },
{
    if slot.is_some() {
        return Ok(());
    }
    match number_value(default as u64, line, u32::MAX as u64) {
        Ok(v) => {
            *slot = Some(v as u32);
            Ok(())
        },
        Err(e) => Err(e),
    }
}

/// Fills an empty port `slot` with the typed number, or with `default` when
/// the line is empty; a filled slot is kept. A line that is not a port number
/// fills nothing and gives the message.
pub fn port_number(default: u16, line: &str, slot: &mut Option<u16>) -> (r: Result<(), String>)
    ensures
        *old(slot) is Some ==> r is Ok && *final(slot) == *old(slot),
        *old(slot) is None ==> match number_answer(line@, default as nat, u16::MAX as nat) {
            Ok(v) => r is Ok && *final(slot) == Some(v as u16),
            Err(m) => r matches Err(e) && e@ == m && *final(slot) is None,
        },
{
    if slot.is_some() {
        return Ok(());
    }
    match number_value(default as u64, line, u16::MAX as u64) {
        Ok(v) => {
            *slot = Some(v as u16);
            Ok(())
        },
        Err(e) => Err(e),
    }
}

/// Fills an empty `slot` with the typed secret; a filled slot is kept. An
/// empty line fills nothing and gives the message that `prompt` is required.
pub fn secret(prompt: &str, line: &str, slot: &mut Option<String>) -> (r: Result<(), String>)
    ensures
        *old(slot) is Some ==> r is Ok && opt_text(*final(slot)) == opt_text(*old(slot)),
        *old(slot) is None ==> match secret_answer(prompt@, line@) {
            Ok(v) => r is Ok && opt_text(*final(slot)) == Some(v),
            Err(m) => r matches Err(e) && e@ == m && *final(slot) is None,
        },
{
    if slot.is_some() {
        return Ok(());
    }
    let l = without_eol(line);
    if l.as_str().is_empty() {
        let mut m = prompt.to_string();
        m.append(" is required");
        return Err(m);
    }
    *slot = Some(l);
    Ok(())
}

/// The option a typed line picks among `options` when the one at
/// `default_index` is offered: the default for an empty line, an option typed
/// out in full, or the option with the typed number (counting from 1);
/// anything else gives the message that it is no choice.
pub open spec fn choice_answer(
    options: Seq<Seq<char>>,
    default_index: nat,
    line: Seq<char>,
) -> Result<Seq<char>, Seq<char>> {
    let l = answer_text(line);
    if l.len() == 0 {
        Ok(options[default_index as int])
    } else if options.contains(l) {
        Ok(l)
    } else {
        match unsigned_value(l) {
            Some(k) => if 1 <= k <= options.len() {
                Ok(options[k - 1])
            } else {
                Err("invalid choice: "@ + l)
            },
            None => Err("invalid choice: "@ + l),
        }
    }
}

/// The menu line for the option `name` numbered `k`.
pub open spec fn menu_entry(k: nat, name: Seq<char>) -> Seq<char> {
    "  "@ + decimal(k) + ") "@ + name
}

/// The menu shown before a choice: each option with its number, from 1.
pub open spec fn menu(options: Seq<Seq<char>>) -> Seq<Seq<char>> {
    Seq::new(options.len(), |i: int| menu_entry((i + 1) as nat, options[i]))
}

/// The menu shown before a choice.
pub fn choice_menu(options: &Vec<String>) -> (r: Vec<String>)
    ensures
        r.deep_view() == menu(options.deep_view()),
{
    let ghost ov = options.deep_view();
    let mut r: Vec<String> = Vec::new();
    for i in 0..options.len()
        invariant
            ov == options.deep_view(),
            r.deep_view() == menu(ov.take(i as int)),
    {
        let mut entry = "  ".to_string();
        entry.append(decimal_text((i as u64) + 1).as_str());
        entry.append(") ");
        entry.append(options[i].as_str());
        assert(entry@ == menu_entry((i + 1) as nat, ov[i as int]));
        let ghost before = r.deep_view();
        r.push(entry);
        assert(r.deep_view() =~= before.push(entry@));
        assert(menu(ov.take(i + 1)) =~= menu(ov.take(i as int)).push(entry@));
    }
    assert(ov.take(options.len() as int) =~= ov);
    r
}

/// Fills an empty `slot` with the option the typed `line` picks among
/// `options`; a filled slot is kept. A line that picks nothing fills nothing
/// and gives the message.
pub fn pick(default_index: usize, options: &Vec<String>, line: &str, slot: &mut Option<String>) -> (r:
    Result<(), String>)
    requires
        default_index < options.len(),
    ensures
        *old(slot) is Some ==> r is Ok && opt_text(*final(slot)) == opt_text(*old(slot)),
        *old(slot) is None ==> match choice_answer(
            options.deep_view(),
            default_index as nat,
            line@,
        ) {
            Ok(v) => r is Ok && opt_text(*final(slot)) == Some(v),
            Err(m) => r matches Err(e) && e@ == m && *final(slot) is None,
        },
{
    if slot.is_some() {
        return Ok(());
    }
    let ghost ov = options.deep_view();
    let l = without_eol(line);
    if l.as_str().is_empty() {
        *slot = Some(options[default_index].clone());
        return Ok(());
    }
    for i in 0..options.len()
        invariant
            ov == options.deep_view(),
            forall|j: int| 0 <= j < i ==> ov[j] != l@,
            l@ == strip_eol(line@),
            l@.len() > 0,
            *old(slot) is None,
            *slot is None,
    {
        if options[i] == l {
            assert(ov[i as int] == l@);
            assert(ov.contains(l@));
            *slot = Some(l);
            return Ok(());
        }
    }
    assert(!ov.contains(l@));
    match parse_bounded(l.as_str(), options.len() as u64) {
        Some(k) => {
            if 1 <= k {
                *slot = Some(options[(k - 1) as usize].clone());
                return Ok(());
            }
        },
        None => {},
    }
    let mut m = "invalid choice: ".to_string();
    m.append(l.as_str());
    Err(m)
}

/// Typing back the default that a number question shows, or nothing, gives
/// that default.
pub proof fn lemma_number_default_typed_back(default: nat, max: nat)
    requires
        default <= max,
    ensures
        number_answer(decimal(default), default, max) == Ok::<nat, Seq<char>>(default),
        number_answer(decimal(default) + "\n"@, default, max) == Ok::<nat, Seq<char>>(default),
        number_answer("\n"@, default, max) == Ok::<nat, Seq<char>>(default),
{
    reveal_strlit("\n");
    lemma_decimal_value(default);
    lemma_decimal_digits(default);
    let d = decimal(default);
    assert(strip_eol(d) == d) by {
        assert(is_digit(d.last()));
    }
    let dn = d + "\n"@;
    assert(dn.drop_last() =~= d);
    assert(dn.last() == '\n');
    assert(strip_eol(dn) == strip_eol(d));
    let nl = "\n"@;
    assert(nl.drop_last() =~= Seq::<char>::empty());
    assert(strip_eol(nl) == strip_eol(Seq::<char>::empty()));
}

} // verus!
