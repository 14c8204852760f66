//! The PCL envelope that carries an HPGL program to the machine.

use vstd::prelude::*;
use vstd::string::*;
use vstd::utf8::encode_utf8;
use crate::decimal::{
    decimal_digits, digits_value, is_digit, lemma_decimal_digits_are_digits,
    lemma_decimal_digits_fit, lemma_digits_value_of_zero_padded, power_of_ten,
    push_decimal_digits, push_zero_padded, zero_padded, zeros,
};
use crate::laser_passes::ToolPass;
use crate::decimal::lemma_zero_padded_is_ascii;
use crate::text::{
    is_ascii_text, joined, lemma_ascii_concat, lemma_ascii_joined, lemma_joined_pair,
    lemma_joined_push, lemma_joined_split, occurrences,
};

verus! {

/// The character that marks a pen as enabled in the pen table: start of text, code 2.
pub const PEN_ENABLED: char = '\u{2}';

/// The character that marks a pen as disabled in the pen table: null, code 0.
pub const PEN_DISABLED: char = '\0';

/// The resolution that the envelope sets, in dots per inch.
pub const RESOLUTION_DPI: u64 = 508;

/// The PJL Universal Exit Language command: escape, then `%-12345X`.
pub open spec fn universal_exit_language_text() -> Seq<char> {
    "\u{1b}%-12345X"@
}

/// The PCL reset command: escape, then `E`.
pub open spec fn reset_text() -> Seq<char> {
    "\u{1b}E"@
}

/// The command that reports the job's file name: its length in bytes, then the name.
pub open spec fn filename_text(filename: Seq<char>) -> Seq<char> {
    "\u{1b}!m"@ + decimal_digits(encode_utf8(filename).len()) + "N"@ + filename
}

/// The command that sets the raster resolution.
pub open spec fn raster_resolution_text(dpi: nat) -> Seq<char> {
    "\u{1b}*t"@ + decimal_digits(dpi) + "R"@
}

/// The command that sets the DPI equivalent of one machine unit.
pub open spec fn unit_of_measure_text(dpi: nat) -> Seq<char> {
    "\u{1b}&u"@ + decimal_digits(dpi) + "R"@
}

/// The command that enters PCL mode.
pub open spec fn enter_pcl_mode_text() -> Seq<char> {
    "\u{1b}%1A"@
}

/// The command that enters HPGL mode.
pub open spec fn enter_hpgl_mode_text() -> Seq<char> {
    "\u{1b}%1B"@
}

/// One `1` for each pen.
pub open spec fn pen_marks(count: nat) -> Seq<char> {
    Seq::new(count, |i: int| '1')
}

/// The resolution `0400` for each pen.
pub open spec fn pen_resolutions(count: nat) -> Seq<char>
    decreases count,
{
    if count == 0 {
        Seq::empty()
    } else {
        pen_resolutions((count - 1) as nat) + "0400"@
    }
}

/// The speed of each pen in pen order, each zero-padded to four digits.
pub open spec fn pen_speeds(tool_passes: Seq<ToolPass>) -> Seq<char>
    decreases tool_passes.len(),
{
    if tool_passes.len() == 0 {
        Seq::empty()
    } else {
        pen_speeds(tool_passes.drop_last()) + zero_padded(tool_passes.last()@.speed as nat, 4)
    }
}

/// The power of each pen in pen order, each zero-padded to four digits.
pub open spec fn pen_powers(tool_passes: Seq<ToolPass>) -> Seq<char>
    decreases tool_passes.len(),
{
    if tool_passes.len() == 0 {
        Seq::empty()
    } else {
        pen_powers(tool_passes.drop_last()) + zero_padded(tool_passes.last()@.power as nat, 4)
    }
}

/// For each pen in pen order, the character that says whether it is enabled.
pub open spec fn pen_enables(tool_passes: Seq<ToolPass>) -> Seq<char> {
    Seq::new(
        tool_passes.len(),
        |i: int|
            if tool_passes[i]@.enabled {
                PEN_ENABLED
            } else {
                PEN_DISABLED
            },
    )
}

/// The table of pens: one section each for the pens' presence, resolution,
/// speed, power and enable state. Each section begins with escape, `!v`, the
/// section's length in characters and the section's letter.
pub open spec fn pen_table_text(tool_passes: Seq<ToolPass>) -> Seq<char> {
    let pens = tool_passes.len();
    "\u{1b}!v"@ + decimal_digits(pens) + "R"@ + pen_marks(pens) + "\u{1b}!v"@ + decimal_digits(
        4 * pens,
    ) + "I"@ + pen_resolutions(pens) + "\u{1b}!v"@ + decimal_digits(4 * pens) + "V"@ + pen_speeds(
        tool_passes,
    ) + "\u{1b}!v"@ + decimal_digits(4 * pens) + "P"@ + pen_powers(tool_passes) + "\u{1b}!v"@
        + decimal_digits(pens) + "D"@ + pen_enables(tool_passes)
}

/// The parts of a job, in order: the HPGL program among the commands of
/// the PCL envelope around it.
pub open spec fn envelope_parts(
    hpgl: Seq<char>,
    filename: Seq<char>,
    tool_passes: Seq<ToolPass>,
) -> Seq<Seq<char>> {
    seq![
        universal_exit_language_text(),
        reset_text(),
        filename_text(filename),
        pen_table_text(tool_passes),
        raster_resolution_text(RESOLUTION_DPI as nat),
        unit_of_measure_text(RESOLUTION_DPI as nat),
        "\u{1b}!r0N"@,
        enter_pcl_mode_text(),
        "\u{1b}!r1000I\u{1b}!r1000K\u{1b}!r500P"@,
        raster_resolution_text(RESOLUTION_DPI as nat),
        unit_of_measure_text(RESOLUTION_DPI as nat),
        "\u{1b}!m0S\u{1b}!s1S"@,
        enter_hpgl_mode_text(),
        hpgl,
        enter_pcl_mode_text(),
        reset_text(),
        universal_exit_language_text(),
    ]
}

/// The whole job: its parts, concatenated with no separator.
pub open spec fn pcl_text(hpgl: Seq<char>, filename: Seq<char>, tool_passes: Seq<ToolPass>) -> Seq<
    char,
> {
    joined(envelope_parts(hpgl, filename, tool_passes))
}

/// The character of `ascii::AsciiChar::SOX`, as `AsciiChar::as_char` gives it:
/// the character whose code is the variant's number, 2.
#[verifier::external_body]
fn start_of_text() -> (ch: char)
    ensures
        ch == PEN_ENABLED,
{
    ascii::AsciiChar::SOX.as_char()
}

/// The character of `ascii::AsciiChar::Null`, as `AsciiChar::as_char` gives it:
/// the character whose code is the variant's number, 0.
#[verifier::external_body]
fn null() -> (ch: char)
    ensures
        ch == PEN_DISABLED,
{
    ascii::AsciiChar::Null.as_char()
}

/// Take some HPGL and wrap it in PCL.
///
/// The file name is displayed on the screen of the machine, so it should be
/// recognisable to the user.
pub fn wrap_hpgl_in_pcl(hpgl: String, filename: &str, laser_passes: &Vec<ToolPass>) -> (pcl: String)
    ensures
        pcl@ == pcl_text(hpgl@, filename@, laser_passes@),
{
    let mut pcl = String::new();
    let ghost parts = Seq::<Seq<char>>::empty();
    append_part(&mut pcl, Ghost(parts), pjl_universal_exit_language().as_str());
    let ghost parts = parts.push(universal_exit_language_text());
    append_part(&mut pcl, Ghost(parts), pcl_reset().as_str());
    let ghost parts = parts.push(reset_text());
    append_part(&mut pcl, Ghost(parts), pcl_filename(filename).as_str());
    let ghost parts = parts.push(filename_text(filename@));
    append_part(&mut pcl, Ghost(parts), pcl_pen_table(laser_passes).as_str());
    let ghost parts = parts.push(pen_table_text(laser_passes@));
    append_part(&mut pcl, Ghost(parts), pcl_raster_resolution(RESOLUTION_DPI).as_str());
    let ghost parts = parts.push(raster_resolution_text(RESOLUTION_DPI as nat));
    append_part(&mut pcl, Ghost(parts), pcl_unit_of_measure(RESOLUTION_DPI).as_str());
    let ghost parts = parts.push(unit_of_measure_text(RESOLUTION_DPI as nat));
    append_part(&mut pcl, Ghost(parts), "\u{1b}!r0N");
    let ghost parts = parts.push("\u{1b}!r0N"@);
    append_part(&mut pcl, Ghost(parts), pcl_enter_pcl_mode().as_str());
    let ghost parts = parts.push(enter_pcl_mode_text());
    append_part(&mut pcl, Ghost(parts), "\u{1b}!r1000I\u{1b}!r1000K\u{1b}!r500P");
    let ghost parts = parts.push("\u{1b}!r1000I\u{1b}!r1000K\u{1b}!r500P"@);
    append_part(&mut pcl, Ghost(parts), pcl_raster_resolution(RESOLUTION_DPI).as_str());
    let ghost parts = parts.push(raster_resolution_text(RESOLUTION_DPI as nat));
    append_part(&mut pcl, Ghost(parts), pcl_unit_of_measure(RESOLUTION_DPI).as_str());
    let ghost parts = parts.push(unit_of_measure_text(RESOLUTION_DPI as nat));
    append_part(&mut pcl, Ghost(parts), "\u{1b}!m0S\u{1b}!s1S");
    let ghost parts = parts.push("\u{1b}!m0S\u{1b}!s1S"@);
    append_part(&mut pcl, Ghost(parts), pcl_enter_hpgl_mode().as_str());
    let ghost parts = parts.push(enter_hpgl_mode_text());
    append_part(&mut pcl, Ghost(parts), hpgl.as_str());
    let ghost parts = parts.push(hpgl@);
    append_part(&mut pcl, Ghost(parts), pcl_enter_pcl_mode().as_str());
    let ghost parts = parts.push(enter_pcl_mode_text());
    append_part(&mut pcl, Ghost(parts), pcl_reset().as_str());
    let ghost parts = parts.push(reset_text());
    append_part(&mut pcl, Ghost(parts), pjl_universal_exit_language().as_str());
    let ghost parts = parts.push(universal_exit_language_text());
    assert(parts =~= envelope_parts(hpgl@, filename@, laser_passes@));
    pcl
}

/// Appends one more part to the parts joined so far.
fn append_part(pcl: &mut String, Ghost(parts): Ghost<Seq<Seq<char>>>, part: &str)
    requires
        old(pcl)@ == joined(parts),
    ensures
        final(pcl)@ == joined(parts.push(part@)),
{
    pcl.append(part);
    proof {
        lemma_joined_push(parts, part@);
    }
}

/// The Printer Job Language (PJL) Universal Exit Language (UEL) command.
///
/// A print job starts in the PJL context; this command leaves it for another
/// command language. It is sent again at the end of the job so that the
/// printer returns to the PJL context.
pub fn pjl_universal_exit_language() -> (command: String)
    ensures
        command@ == universal_exit_language_text(),
{
    String::from_str("\u{1b}%-12345X")
}

/// The command that enters PCL and resets the printer.
///
/// It must be sent before any other PCL command, and is sent at the end to
/// return the tool and bed to their home positions.
pub fn pcl_reset() -> (command: String)
    ensures
        command@ == reset_text(),
{
    String::from_str("\u{1b}E")
}

/// The command that tells PCL the file name of the print job.
pub fn pcl_filename(filename: &str) -> (command: String)
    ensures
        command@ == filename_text(filename@),
{
    let len = filename.as_bytes().len();
    let mut command = String::from_str("\u{1b}!m");
    push_decimal_digits(&mut command, len as u128);
    command.append("N");
    command.append(filename);
    command
}

/// Constructs the table of pens. A pen is a pass of the tool: as a pen plotter
/// moves its pens at different speeds and pressures, a cutter moves its tool
/// at different speeds and powers.
pub fn pcl_pen_table(tool_passes: &Vec<ToolPass>) -> (table: String)
    ensures
        table@ == pen_table_text(tool_passes@),
{
    let num_pens = tool_passes.len();
    let message_bytes: u128 = num_pens as u128 * 4;
    let ghost passes = tool_passes@;

    let mut result = String::from_str("\u{1b}!v");
    push_decimal_digits(&mut result, num_pens as u128);
    result.append("R");
    let ghost head = result@;
    let mut i: usize = 0;
    assert(result@ =~= head + pen_marks(0));
    while i < num_pens
        invariant
            i <= num_pens,
            result@ == head + pen_marks(i as nat),
        decreases num_pens - i,
    {
        result.push('1');
        i += 1;
        assert(result@ =~= head + pen_marks(i as nat));
    }

    // Pen PPI
    result.append("\u{1b}!v");
    push_decimal_digits(&mut result, message_bytes);
    result.append("I");
    let ghost head = result@;
    let mut i: usize = 0;
    assert(result@ =~= head + pen_resolutions(0));
    while i < num_pens
        invariant
            i <= num_pens,
            result@ == head + pen_resolutions(i as nat),
        decreases num_pens - i,
    {
        result.append("0400");
        i += 1;
        assert(result@ =~= head + pen_resolutions(i as nat));
    }

    // Pen Speed
    result.append("\u{1b}!v");
    push_decimal_digits(&mut result, message_bytes);
    result.append("V");
    let ghost head = result@;
    let mut i: usize = 0;
    assert(passes.take(0) =~= Seq::<ToolPass>::empty());
    assert(result@ =~= head + pen_speeds(passes.take(0)));
    while i < num_pens
        invariant
            i <= num_pens,
            num_pens == passes.len(),
            passes == tool_passes@,
            result@ == head + pen_speeds(passes.take(i as int)),
        decreases num_pens - i,
    {
        push_zero_padded(&mut result, *tool_passes[i].speed(), 4);
        proof {
            let next = passes.take(i as int + 1);
            assert(next.drop_last() =~= passes.take(i as int));
            assert(next.last() == passes[i as int]);
            assert(result@ =~= head + pen_speeds(next));
        }
        i += 1;
    }
    assert(passes.take(i as int) =~= passes);

    // Pen Power
    result.append("\u{1b}!v");
    push_decimal_digits(&mut result, message_bytes);
    result.append("P");
    let ghost head = result@;
    let mut i: usize = 0;
    assert(result@ =~= head + pen_powers(passes.take(0)));
    while i < num_pens
        invariant
            i <= num_pens,
            num_pens == passes.len(),
            passes == tool_passes@,
            result@ == head + pen_powers(passes.take(i as int)),
        decreases num_pens - i,
    {
        push_zero_padded(&mut result, *tool_passes[i].power(), 4);
        proof {
            let next = passes.take(i as int + 1);
            assert(next.drop_last() =~= passes.take(i as int));
            assert(next.last() == passes[i as int]);
            assert(result@ =~= head + pen_powers(next));
        }
        i += 1;
    }
    assert(passes.take(i as int) =~= passes);

    // Pen enable.
    result.append("\u{1b}!v");
    push_decimal_digits(&mut result, num_pens as u128);
    result.append("D");
    let ghost head = result@;
    let mut i: usize = 0;
    assert(result@ =~= head + pen_enables(passes.take(0)));
    while i < num_pens
        invariant
            i <= num_pens,
            num_pens == passes.len(),
            passes == tool_passes@,
            result@ == head + pen_enables(passes.take(i as int)),
        decreases num_pens - i,
    {
        if *tool_passes[i].enabled() {
            result.push(start_of_text());
        } else {
            result.push(null());
        }
        assert(result@ =~= head + pen_enables(passes.take(i as int + 1)));
        i += 1;
    }
    assert(passes.take(i as int) =~= passes);

    result
}

/// The command that sets the resolution of rasterization performed by PCL.
pub fn pcl_raster_resolution(dpi: u64) -> (command: String)
    ensures
        command@ == raster_resolution_text(dpi as nat),
{
    let mut command = String::from_str("\u{1b}*t");
    push_decimal_digits(&mut command, dpi as u128);
    command.append("R");
    command
}

/// The command that sets the DPI equivalent of a single machine unit.
pub fn pcl_unit_of_measure(dpi: u64) -> (command: String)
    ensures
        command@ == unit_of_measure_text(dpi as nat),
{
    let mut command = String::from_str("\u{1b}&u");
    push_decimal_digits(&mut command, dpi as u128);
    command.append("R");
    command
}

/// The command that enters PCL mode, the mode that the envelope is written in.
pub fn pcl_enter_pcl_mode() -> (command: String)
    ensures
        command@ == enter_pcl_mode_text(),
{
    String::from_str("\u{1b}%1A")
}

/// The command that enters HPGL mode, a sub-mode of PCL.
pub fn pcl_enter_hpgl_mode() -> (command: String)
    ensures
        command@ == enter_hpgl_mode_text(),
{
    String::from_str("\u{1b}%1B")
}

/// How many passes are enabled.
pub open spec fn enabled_count(tool_passes: Seq<ToolPass>) -> nat
    decreases tool_passes.len(),
{
    if tool_passes.len() == 0 {
        0
    } else {
        enabled_count(tool_passes.drop_last()) + if tool_passes.last()@.enabled {
            1nat
        } else {
            0nat
        }
    }
}

/// Whether every character of a text is a decimal digit.
pub open spec fn all_digits(text: Seq<char>) -> bool {
    forall|i: int| 0 <= i < text.len() ==> is_digit(#[trigger] text[i])
}

/// Whether the power and speed of every pass are within their range.
pub open spec fn all_in_range(tool_passes: Seq<ToolPass>) -> bool {
    forall|i: int| 0 <= i < tool_passes.len() ==> (#[trigger] tool_passes[i])@.in_range()
}

/// Where the speed section begins in the pen table of sixteen passes.
pub const SPEED_SECTION_START: usize = 98;

/// Where the power section begins in the pen table of sixteen passes.
pub const POWER_SECTION_START: usize = 168;

/// Where the enable section begins in the pen table of sixteen passes.
pub const ENABLE_SECTION_START: usize = 238;

/// The speed that the pen table of sixteen passes holds for a pen.
pub open spec fn speed_in_table(table: Seq<char>, pen: int) -> nat {
    digits_value(table.subrange(SPEED_SECTION_START + 4 * pen, SPEED_SECTION_START + 4 * pen + 4))
}

/// The power that the pen table of sixteen passes holds for a pen.
pub open spec fn power_in_table(table: Seq<char>, pen: int) -> nat {
    digits_value(table.subrange(POWER_SECTION_START + 4 * pen, POWER_SECTION_START + 4 * pen + 4))
}

/// Whether the pen table of sixteen passes holds a pen as enabled.
pub open spec fn enabled_in_table(table: Seq<char>, pen: int) -> bool {
    table[ENABLE_SECTION_START + pen] == PEN_ENABLED
}

/// A number of at most four digits, zero-padded to four, is four digits.
pub proof fn lemma_zero_padded_four(value: nat)
    requires
        value < 10000,
    ensures
        zero_padded(value, 4).len() == 4,
        all_digits(zero_padded(value, 4)),
{
    assert(power_of_ten(4) == 10000) by {
        reveal_with_fuel(power_of_ten, 5);
    }
    lemma_decimal_digits_fit(value, 4);
    lemma_decimal_digits_are_digits(value);
    let digits = decimal_digits(value);
    let padded = zero_padded(value, 4);
    assert forall|i: int| 0 <= i < padded.len() implies is_digit(#[trigger] padded[i]) by {
        if digits.len() < 4 {
            let padding = zeros((4 - digits.len()) as nat);
            if i < padding.len() {
                assert(padded[i] == padding[i]);
            } else {
                assert(padded[i] == digits[i - padding.len()]);
            }
        }
    }
}

/// The resolution section holds four digits for each pen.
pub proof fn lemma_pen_resolutions(count: nat)
    ensures
        pen_resolutions(count).len() == 4 * count,
        all_digits(pen_resolutions(count)),
    decreases count,
{
    reveal_strlit("0400");
    if count > 0 {
        lemma_pen_resolutions((count - 1) as nat);
        let earlier = pen_resolutions((count - 1) as nat);
        let section = pen_resolutions(count);
        assert forall|i: int| 0 <= i < section.len() implies is_digit(#[trigger] section[i]) by {
            if i < earlier.len() {
                assert(section[i] == earlier[i]);
            } else {
                assert(section[i] == "0400"@[i - earlier.len()]);
            }
        }
    }
}

/// The speed section holds four digits for each pen: the pen's speed, zero-padded.
pub proof fn lemma_pen_speeds(tool_passes: Seq<ToolPass>)
    requires
        all_in_range(tool_passes),
    ensures
        pen_speeds(tool_passes).len() == 4 * tool_passes.len(),
        all_digits(pen_speeds(tool_passes)),
        forall|pen: int|
            0 <= pen < tool_passes.len() ==> #[trigger] pen_speeds(tool_passes).subrange(
                4 * pen,
                4 * pen + 4,
            ) == zero_padded(tool_passes[pen]@.speed as nat, 4),
    decreases tool_passes.len(),
{
    if tool_passes.len() > 0 {
        let front = tool_passes.drop_last();
        let last = tool_passes.last();
        assert(all_in_range(front)) by {
            assert forall|i: int| 0 <= i < front.len() implies (#[trigger] front[i])@.in_range() by {
                assert(front[i] == tool_passes[i]);
            }
        }
        lemma_pen_speeds(front);
        assert(tool_passes[tool_passes.len() - 1]@.in_range());
        lemma_zero_padded_four(last@.speed as nat);
        let earlier = pen_speeds(front);
        let section = pen_speeds(tool_passes);
        let field = zero_padded(last@.speed as nat, 4);
        assert forall|i: int| 0 <= i < section.len() implies is_digit(#[trigger] section[i]) by {
            if i < earlier.len() {
                assert(section[i] == earlier[i]);
            } else {
                assert(section[i] == field[i - earlier.len()]);
            }
        }
        assert forall|pen: int| 0 <= pen < tool_passes.len() implies #[trigger] section.subrange(
            4 * pen,
            4 * pen + 4,
        ) == zero_padded(tool_passes[pen]@.speed as nat, 4) by {
            if pen < front.len() {
                assert(front[pen] == tool_passes[pen]);
                assert(section.subrange(4 * pen, 4 * pen + 4) =~= earlier.subrange(
                    4 * pen,
                    4 * pen + 4,
                ));
            } else {
                assert(section.subrange(4 * pen, 4 * pen + 4) =~= field);
            }
        }
    }
}

/// The power section holds four digits for each pen: the pen's power, zero-padded.
pub proof fn lemma_pen_powers(tool_passes: Seq<ToolPass>)
    requires
        all_in_range(tool_passes),
    ensures
        pen_powers(tool_passes).len() == 4 * tool_passes.len(),
        all_digits(pen_powers(tool_passes)),
        forall|pen: int|
            0 <= pen < tool_passes.len() ==> #[trigger] pen_powers(tool_passes).subrange(
                4 * pen,
                4 * pen + 4,
            ) == zero_padded(tool_passes[pen]@.power as nat, 4),
    decreases tool_passes.len(),
{
    if tool_passes.len() > 0 {
        let front = tool_passes.drop_last();
        let last = tool_passes.last();
        assert(all_in_range(front)) by {
            assert forall|i: int| 0 <= i < front.len() implies (#[trigger] front[i])@.in_range() by {
                assert(front[i] == tool_passes[i]);
            }
        }
        lemma_pen_powers(front);
        assert(tool_passes[tool_passes.len() - 1]@.in_range());
        lemma_zero_padded_four(last@.power as nat);
        let earlier = pen_powers(front);
        let section = pen_powers(tool_passes);
        let field = zero_padded(last@.power as nat, 4);
        assert forall|i: int| 0 <= i < section.len() implies is_digit(#[trigger] section[i]) by {
            if i < earlier.len() {
                assert(section[i] == earlier[i]);
            } else {
                assert(section[i] == field[i - earlier.len()]);
            }
        }
        assert forall|pen: int| 0 <= pen < tool_passes.len() implies #[trigger] section.subrange(
            4 * pen,
            4 * pen + 4,
        ) == zero_padded(tool_passes[pen]@.power as nat, 4) by {
            if pen < front.len() {
                assert(front[pen] == tool_passes[pen]);
                assert(section.subrange(4 * pen, 4 * pen + 4) =~= earlier.subrange(
                    4 * pen,
                    4 * pen + 4,
                ));
            } else {
                assert(section.subrange(4 * pen, 4 * pen + 4) =~= field);
            }
        }
    }
}

/// The enable section marks as many pens as enabled as there are enabled passes.
pub proof fn lemma_pen_enables_count(tool_passes: Seq<ToolPass>)
    ensures
        occurrences(pen_enables(tool_passes), PEN_ENABLED) == enabled_count(tool_passes),
    decreases tool_passes.len(),
{
    if tool_passes.len() > 0 {
        lemma_pen_enables_count(tool_passes.drop_last());
        assert(pen_enables(tool_passes).drop_last() =~= pen_enables(tool_passes.drop_last()));
    }
}

/// The pen table of sixteen passes, section by section.
pub open spec fn pen_table_of_sixteen(tool_passes: Seq<ToolPass>) -> Seq<char> {
    "\u{1b}!v16R"@ + pen_marks(16) + "\u{1b}!v64I"@ + pen_resolutions(16) + "\u{1b}!v64V"@
        + pen_speeds(tool_passes) + "\u{1b}!v64P"@ + pen_powers(tool_passes) + "\u{1b}!v16D"@
        + pen_enables(tool_passes)
}

/// The width of the pen table. For sixteen passes the table announces
/// sections of 16, 64, 64, 64 and 16 characters. Its first section is sixteen
/// times `1`; the resolution, speed and power sections are 64 decimal digits
/// each; the last section is sixteen characters, each the mark for enabled or
/// the mark for disabled, with as many of the former as passes are enabled.
pub proof fn lemma_pen_table_width(tool_passes: Seq<ToolPass>)
    requires
        tool_passes.len() == 16,
        all_in_range(tool_passes),
    ensures
        pen_table_text(tool_passes) == pen_table_of_sixteen(tool_passes),
        pen_marks(16).len() == 16,
        occurrences(pen_marks(16), '1') == 16,
        pen_resolutions(16).len() == 64 && all_digits(pen_resolutions(16)),
        pen_speeds(tool_passes).len() == 64 && all_digits(pen_speeds(tool_passes)),
        pen_powers(tool_passes).len() == 64 && all_digits(pen_powers(tool_passes)),
        pen_enables(tool_passes).len() == 16,
        forall|pen: int|
            0 <= pen < 16 ==> #[trigger] pen_enables(tool_passes)[pen] == PEN_ENABLED
                || pen_enables(tool_passes)[pen] == PEN_DISABLED,
        occurrences(pen_enables(tool_passes), PEN_ENABLED) == enabled_count(tool_passes),
{
    reveal_with_fuel(decimal_digits, 3);
    reveal_strlit("\u{1b}!v");
    reveal_strlit("R");
    reveal_strlit("I");
    reveal_strlit("V");
    reveal_strlit("P");
    reveal_strlit("D");
    reveal_strlit("\u{1b}!v16R");
    reveal_strlit("\u{1b}!v64I");
    reveal_strlit("\u{1b}!v64V");
    reveal_strlit("\u{1b}!v64P");
    reveal_strlit("\u{1b}!v16D");
    assert(decimal_digits(16) =~= seq!['1', '6']);
    assert(decimal_digits(64) =~= seq!['6', '4']);
    assert("\u{1b}!v"@ + decimal_digits(16) + "R"@ =~= "\u{1b}!v16R"@);
    assert("\u{1b}!v"@ + decimal_digits(64) + "I"@ =~= "\u{1b}!v64I"@);
    assert("\u{1b}!v"@ + decimal_digits(64) + "V"@ =~= "\u{1b}!v64V"@);
    assert("\u{1b}!v"@ + decimal_digits(64) + "P"@ =~= "\u{1b}!v64P"@);
    assert("\u{1b}!v"@ + decimal_digits(16) + "D"@ =~= "\u{1b}!v16D"@);
    assert(pen_table_text(tool_passes) =~= pen_table_of_sixteen(tool_passes));
    lemma_pen_resolutions(16);
    lemma_pen_speeds(tool_passes);
    lemma_pen_powers(tool_passes);
    lemma_pen_enables_count(tool_passes);
    lemma_pen_marks_count(16);
}

proof fn lemma_pen_marks_count(count: nat)
    ensures
        occurrences(pen_marks(count), '1') == count,
    decreases count,
{
    if count > 0 {
        lemma_pen_marks_count((count - 1) as nat);
        assert(pen_marks(count).drop_last() =~= pen_marks((count - 1) as nat));
    }
}

/// Reading the pen table back gives the passes' settings. For sixteen passes
/// and every pen, the four digits at the pen's place in the speed section
/// denote the speed of its pass, those in the power section its power, and
/// its character in the enable section is the mark for enabled exactly where
/// the pass is enabled.
pub proof fn lemma_pen_table_round_trip(tool_passes: Seq<ToolPass>, pen: int)
    requires
        tool_passes.len() == 16,
        all_in_range(tool_passes),
        0 <= pen < 16,
    ensures
        speed_in_table(pen_table_text(tool_passes), pen) == tool_passes[pen]@.speed,
        power_in_table(pen_table_text(tool_passes), pen) == tool_passes[pen]@.power,
        enabled_in_table(pen_table_text(tool_passes), pen) == tool_passes[pen]@.enabled,
{
    lemma_pen_table_width(tool_passes);
    lemma_pen_speeds(tool_passes);
    lemma_pen_powers(tool_passes);
    reveal_strlit("\u{1b}!v16R");
    reveal_strlit("\u{1b}!v64I");
    reveal_strlit("\u{1b}!v64V");
    reveal_strlit("\u{1b}!v64P");
    reveal_strlit("\u{1b}!v16D");
    let table = pen_table_text(tool_passes);
    let speeds = pen_speeds(tool_passes);
    let powers = pen_powers(tool_passes);
    let enables = pen_enables(tool_passes);
    let before_speeds = "\u{1b}!v16R"@ + pen_marks(16) + "\u{1b}!v64I"@ + pen_resolutions(16)
        + "\u{1b}!v64V"@;
    let before_powers = before_speeds + speeds + "\u{1b}!v64P"@;
    let before_enables = before_powers + powers + "\u{1b}!v16D"@;
    assert(before_speeds.len() == SPEED_SECTION_START);
    assert(before_powers.len() == POWER_SECTION_START);
    assert(before_enables.len() == ENABLE_SECTION_START);
    assert(table =~= before_enables + enables);
    assert(table.subrange(SPEED_SECTION_START + 4 * pen, SPEED_SECTION_START + 4 * pen + 4)
        =~= speeds.subrange(4 * pen, 4 * pen + 4));
    assert(table.subrange(POWER_SECTION_START + 4 * pen, POWER_SECTION_START + 4 * pen + 4)
        =~= powers.subrange(4 * pen, 4 * pen + 4));
    assert(table[ENABLE_SECTION_START + pen] == enables[pen]);
    lemma_digits_value_of_zero_padded(tool_passes[pen]@.speed as nat, 4);
    lemma_digits_value_of_zero_padded(tool_passes[pen]@.power as nat, 4);
}

/// The framing of the envelope. A job begins with the Universal Exit Language
/// command and ends with it; the reset command is the second command and the
/// second from the end.
pub proof fn lemma_envelope_framing(hpgl: Seq<char>, filename: Seq<char>, tool_passes: Seq<ToolPass>)
    ensures
        ({
            let parts = envelope_parts(hpgl, filename, tool_passes);
            let pcl = pcl_text(hpgl, filename, tool_passes);
            let len = pcl.len() as int;
            &&& parts.len() == 17
            &&& parts[0] == universal_exit_language_text()
            &&& parts[1] == reset_text()
            &&& parts[15] == reset_text()
            &&& parts[16] == universal_exit_language_text()
            &&& len >= 22
            &&& pcl.subrange(0, 9) == universal_exit_language_text()
            &&& pcl.subrange(9, 11) == reset_text()
            &&& pcl.subrange(len - 11, len - 9) == reset_text()
            &&& pcl.subrange(len - 9, len) == universal_exit_language_text()
        }),
{
    reveal_strlit("\u{1b}%-12345X");
    reveal_strlit("\u{1b}E");
    let uel = universal_exit_language_text();
    let reset = reset_text();
    let parts = envelope_parts(hpgl, filename, tool_passes);
    let pcl = pcl_text(hpgl, filename, tool_passes);
    let len = pcl.len() as int;
    lemma_joined_split(parts, 2);
    lemma_joined_split(parts, 15);
    assert(parts.take(2) =~= seq![uel, reset]);
    assert(parts.skip(15) =~= seq![reset, uel]);
    lemma_joined_pair(uel, reset);
    lemma_joined_pair(reset, uel);
    let opening = uel + reset;
    let closing = reset + uel;
    assert(pcl == opening + joined(parts.skip(2)));
    assert(pcl == joined(parts.take(15)) + closing);
    lemma_joined_split(parts.take(15), 2);
    assert(parts.take(15).take(2) =~= parts.take(2));
    assert(len >= 22);
    assert(pcl.subrange(0, 9) =~= uel);
    assert(pcl.subrange(9, 11) =~= reset);
    assert(pcl.subrange(len - 11, len - 9) =~= reset);
    assert(pcl.subrange(len - 9, len) =~= uel);
}

/// The speed and power sections of a pen table are ASCII.
proof fn lemma_pen_settings_are_ascii(tool_passes: Seq<ToolPass>)
    ensures
        is_ascii_text(pen_speeds(tool_passes)),
        is_ascii_text(pen_powers(tool_passes)),
    decreases tool_passes.len(),
{
    if tool_passes.len() > 0 {
        lemma_pen_settings_are_ascii(tool_passes.drop_last());
        lemma_zero_padded_is_ascii(tool_passes.last()@.speed as nat, 4);
        lemma_zero_padded_is_ascii(tool_passes.last()@.power as nat, 4);
        lemma_ascii_concat(
            pen_speeds(tool_passes.drop_last()),
            zero_padded(tool_passes.last()@.speed as nat, 4),
        );
        lemma_ascii_concat(
            pen_powers(tool_passes.drop_last()),
            zero_padded(tool_passes.last()@.power as nat, 4),
        );
    }
}

/// A section header of a pen table is ASCII.
proof fn lemma_section_header_is_ascii(length: nat, letter: Seq<char>)
    requires
        is_ascii_text(letter),
    ensures
        is_ascii_text("\u{1b}!v"@ + decimal_digits(length) + letter),
{
    reveal_strlit("\u{1b}!v");
    lemma_decimal_digits_are_digits(length);
    lemma_ascii_concat("\u{1b}!v"@, decimal_digits(length));
    lemma_ascii_concat("\u{1b}!v"@ + decimal_digits(length), letter);
}

/// The pen table is ASCII.
pub proof fn lemma_pen_table_is_ascii(tool_passes: Seq<ToolPass>)
    ensures
        is_ascii_text(pen_table_text(tool_passes)),
{
    let pens = tool_passes.len();
    reveal_strlit("\u{1b}!v");
    reveal_strlit("R");
    reveal_strlit("I");
    reveal_strlit("V");
    reveal_strlit("P");
    reveal_strlit("D");
    lemma_decimal_digits_are_digits(pens);
    lemma_decimal_digits_are_digits(4 * pens);
    lemma_pen_resolutions(pens);
    lemma_pen_settings_are_ascii(tool_passes);
    lemma_section_header_is_ascii(pens, "R"@);
    lemma_section_header_is_ascii(4 * pens, "I"@);
    lemma_section_header_is_ascii(4 * pens, "V"@);
    lemma_section_header_is_ascii(4 * pens, "P"@);
    lemma_section_header_is_ascii(pens, "D"@);
    let marked = "\u{1b}!v"@ + decimal_digits(pens) + "R"@ + pen_marks(pens);
    lemma_ascii_concat("\u{1b}!v"@ + decimal_digits(pens) + "R"@, pen_marks(pens));
    let resolution_header = "\u{1b}!v"@ + decimal_digits(4 * pens) + "I"@;
    lemma_ascii_concat(marked, "\u{1b}!v"@);
    lemma_ascii_concat(marked + "\u{1b}!v"@, decimal_digits(4 * pens));
    lemma_ascii_concat(marked + "\u{1b}!v"@ + decimal_digits(4 * pens), "I"@);
    let resolved = marked + "\u{1b}!v"@ + decimal_digits(4 * pens) + "I"@ + pen_resolutions(pens);
    lemma_ascii_concat(
        marked + "\u{1b}!v"@ + decimal_digits(4 * pens) + "I"@,
        pen_resolutions(pens),
    );
    lemma_ascii_concat(resolved, "\u{1b}!v"@);
    lemma_ascii_concat(resolved + "\u{1b}!v"@, decimal_digits(4 * pens));
    lemma_ascii_concat(resolved + "\u{1b}!v"@ + decimal_digits(4 * pens), "V"@);
    let sped = resolved + "\u{1b}!v"@ + decimal_digits(4 * pens) + "V"@ + pen_speeds(tool_passes);
    lemma_ascii_concat(
        resolved + "\u{1b}!v"@ + decimal_digits(4 * pens) + "V"@,
        pen_speeds(tool_passes),
    );
    lemma_ascii_concat(sped, "\u{1b}!v"@);
    lemma_ascii_concat(sped + "\u{1b}!v"@, decimal_digits(4 * pens));
    lemma_ascii_concat(sped + "\u{1b}!v"@ + decimal_digits(4 * pens), "P"@);
    let powered = sped + "\u{1b}!v"@ + decimal_digits(4 * pens) + "P"@ + pen_powers(tool_passes);
    lemma_ascii_concat(
        sped + "\u{1b}!v"@ + decimal_digits(4 * pens) + "P"@,
        pen_powers(tool_passes),
    );
    lemma_ascii_concat(powered, "\u{1b}!v"@);
    lemma_ascii_concat(powered + "\u{1b}!v"@, decimal_digits(pens));
    lemma_ascii_concat(powered + "\u{1b}!v"@ + decimal_digits(pens), "D"@);
    lemma_ascii_concat(
        powered + "\u{1b}!v"@ + decimal_digits(pens) + "D"@,
        pen_enables(tool_passes),
    );
}

/// A job is 7-bit ASCII, one byte to the character, wherever the HPGL and
/// the file name that it is made of are.
pub proof fn lemma_envelope_is_ascii(hpgl: Seq<char>, filename: Seq<char>, tool_passes: Seq<ToolPass>)
    requires
        is_ascii_text(hpgl),
        is_ascii_text(filename),
    ensures
        is_ascii_text(pcl_text(hpgl, filename, tool_passes)),
{
    reveal_strlit("\u{1b}%-12345X");
    reveal_strlit("\u{1b}E");
    reveal_strlit("\u{1b}!m");
    reveal_strlit("N");
    reveal_strlit("\u{1b}*t");
    reveal_strlit("\u{1b}&u");
    reveal_strlit("R");
    reveal_strlit("\u{1b}!r0N");
    reveal_strlit("\u{1b}%1A");
    reveal_strlit("\u{1b}%1B");
    reveal_strlit("\u{1b}!r1000I\u{1b}!r1000K\u{1b}!r500P");
    reveal_strlit("\u{1b}!m0S\u{1b}!s1S");
    let name_length = encode_utf8(filename).len();
    lemma_decimal_digits_are_digits(name_length);
    lemma_decimal_digits_are_digits(RESOLUTION_DPI as nat);
    lemma_ascii_concat("\u{1b}!m"@, decimal_digits(name_length));
    lemma_ascii_concat("\u{1b}!m"@ + decimal_digits(name_length), "N"@);
    lemma_ascii_concat("\u{1b}!m"@ + decimal_digits(name_length) + "N"@, filename);
    lemma_ascii_concat("\u{1b}*t"@, decimal_digits(RESOLUTION_DPI as nat));
    lemma_ascii_concat("\u{1b}*t"@ + decimal_digits(RESOLUTION_DPI as nat), "R"@);
    lemma_ascii_concat("\u{1b}&u"@, decimal_digits(RESOLUTION_DPI as nat));
    lemma_ascii_concat("\u{1b}&u"@ + decimal_digits(RESOLUTION_DPI as nat), "R"@);
    lemma_pen_table_is_ascii(tool_passes);
    let parts = envelope_parts(hpgl, filename, tool_passes);
    assert forall|i: int| 0 <= i < parts.len() implies is_ascii_text(#[trigger] parts[i]) by {
    }
    lemma_ascii_joined(parts);
}

} // verus!
