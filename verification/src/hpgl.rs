//! Synthesis of the HPGL/2 program that traces a design.

use vstd::prelude::*;
use vstd::string::*;
use crate::decimal::{decimal, push_decimal, push_decimal_digits};
use crate::laser_passes::ToolPass;
use crate::paths::{polylines, PathColour, PathsByColour, ResolvedPath, ResolvedPoint};
use crate::decimal::lemma_decimal_is_ascii;
use crate::text::{is_ascii_text, joined, lemma_ascii_concat};

verus! {

/// How many tool passes an HPGL program is generated for: the pens of the machine.
pub const REQUIRED_TOOL_PASSES: usize = 16;

/// One statement of the HPGL/2 programs that this library writes.
pub enum Statement {
    /// `IN;` initialises the plotter.
    Initialise,
    /// `SC;` selects the default coordinate system.
    Scale,
    /// `PU;` raises the pen where it is.
    PenUp,
    /// `PUx,y;` moves to a point with the pen up.
    MoveTo(ResolvedPoint),
    /// `PDx,y;` moves to a point with the pen down.
    DrawTo(ResolvedPoint),
    /// `SPn;` selects pen `n`, counted from one; zero puts the pen away.
    SelectPen(int),
    /// `LT;` resets the line type.
    LineType,
    /// `ECn;` is passed on to the firmware as it stands.
    EnableCutter(int),
    /// `OE;` asks for the error status.
    OutputError,
}

/// The text of one statement.
pub open spec fn statement_text(statement: Statement) -> Seq<char> {
    match statement {
        Statement::Initialise => "IN;"@,
        Statement::Scale => "SC;"@,
        Statement::PenUp => "PU;"@,
        Statement::MoveTo(point) => "PU"@ + decimal(point.x as int) + ","@ + decimal(
            point.y as int,
        ) + ";"@,
        Statement::DrawTo(point) => "PD"@ + decimal(point.x as int) + ","@ + decimal(
            point.y as int,
        ) + ";"@,
        Statement::SelectPen(pen) => "SP"@ + decimal(pen) + ";"@,
        Statement::LineType => "LT;"@,
        Statement::EnableCutter(value) => "EC"@ + decimal(value) + ";"@,
        Statement::OutputError => "OE;"@,
    }
}

/// The text of a program: the texts of its statements, one after the other.
pub open spec fn program_text(statements: Seq<Statement>) -> Seq<char>
    decreases statements.len(),
{
    if statements.len() == 0 {
        Seq::empty()
    } else {
        program_text(statements.drop_last()) + statement_text(statements.last())
    }
}

/// The statements that trace one polyline: pen up to its first point, then
/// pen down to each point after it. An empty polyline gives none.
pub open spec fn trace_statements(path: Seq<ResolvedPoint>) -> Seq<Statement> {
    Seq::new(
        path.len(),
        |i: int|
            if i == 0 {
                Statement::MoveTo(path[i])
            } else {
                Statement::DrawTo(path[i])
            },
    )
}

/// The statements that trace the polylines of a bucket, one polyline after the other.
pub open spec fn bucket_statements(paths: Seq<Seq<ResolvedPoint>>) -> Seq<Statement>
    decreases paths.len(),
{
    if paths.len() == 0 {
        Seq::empty()
    } else {
        bucket_statements(paths.drop_last()) + trace_statements(paths.last())
    }
}

/// The statements of the tool pass at `index`: where the pass is enabled and
/// there are paths of its colour, the selection of its pen and those paths.
pub open spec fn pass_statements(
    tool_passes: Seq<ToolPass>,
    lines: spec_fn((u8, u8, u8)) -> Seq<Seq<ResolvedPoint>>,
    index: int,
) -> Seq<Statement> {
    let paths = lines(tool_passes[index]@.colour);
    if tool_passes[index]@.enabled && paths.len() > 0 {
        seq![Statement::SelectPen(index + 1)] + bucket_statements(paths)
    } else {
        Seq::empty()
    }
}

/// The statements of the first `count` tool passes, in tool-pass order.
pub open spec fn passes_statements(
    tool_passes: Seq<ToolPass>,
    lines: spec_fn((u8, u8, u8)) -> Seq<Seq<ResolvedPoint>>,
    count: int,
) -> Seq<Statement>
    decreases count,
{
    if count <= 0 {
        Seq::empty()
    } else {
        passes_statements(tool_passes, lines, count - 1) + pass_statements(
            tool_passes,
            lines,
            count - 1,
        )
    }
}

/// Whether the pass at `index` is enabled and none before it is.
pub open spec fn is_first_enabled(tool_passes: Seq<ToolPass>, index: int) -> bool {
    &&& 0 <= index < tool_passes.len()
    &&& tool_passes[index]@.enabled
    &&& forall|earlier: int| 0 <= earlier < index ==> !(#[trigger] tool_passes[earlier])@.enabled
}

/// Whether any pass is enabled.
pub open spec fn any_enabled(tool_passes: Seq<ToolPass>) -> bool {
    exists|index: int| 0 <= index < tool_passes.len() && (#[trigger] tool_passes[index])@.enabled
}

/// The index of the first enabled pass.
pub open spec fn first_enabled(tool_passes: Seq<ToolPass>) -> int {
    choose|index: int| is_first_enabled(tool_passes, index)
}

/// The statements before the paths: initialise, select the pen of the first
/// enabled pass, and go to the origin with the pen up.
pub open spec fn opening_statements(first_pen: int) -> Seq<Statement> {
    seq![
        Statement::Initialise,
        Statement::Scale,
        Statement::PenUp,
        Statement::SelectPen(first_pen + 1),
        Statement::LineType,
        Statement::MoveTo(ResolvedPoint { x: 0, y: 0 }),
    ]
}

/// The statements after the paths: back to the origin, and the pen put away.
pub open spec fn closing_statements() -> Seq<Statement> {
    seq![
        Statement::MoveTo(ResolvedPoint { x: 0, y: 0 }),
        Statement::SelectPen(0),
        Statement::EnableCutter(0),
        Statement::EnableCutter(1),
        Statement::OutputError,
    ]
}

/// The polylines of each colour, as paths grouped by colour hold them.
pub open spec fn lines_of(resolved_paths: PathsByColour<ResolvedPath>) -> spec_fn((u8, u8, u8)) -> Seq<
    Seq<ResolvedPoint>,
> {
    |colour: (u8, u8, u8)| polylines(resolved_paths.bucket(colour))
}

/// The whole program for a design: opening, the passes in order, closing.
pub open spec fn design_statements(
    tool_passes: Seq<ToolPass>,
    lines: spec_fn((u8, u8, u8)) -> Seq<Seq<ResolvedPoint>>,
) -> Seq<Statement> {
    opening_statements(first_enabled(tool_passes)) + passes_statements(
        tool_passes,
        lines,
        tool_passes.len() as int,
    ) + closing_statements()
}

/// Why no HPGL could be generated for a tool program.
#[derive(Debug, Clone, Copy, PartialEq, Eq, Structural)]
pub enum EmitPreconditionFailed {
    /// The tool program does not hold exactly 16 passes.
    NotSixteenPasses,
    /// No pass of the tool program is enabled.
    NoPassEnabled,
}

impl EmitPreconditionFailed {
    /// The diagnostic to show for this failure.
    pub fn message(&self) -> (text: String)
        ensures
            text@ == match *self {
                EmitPreconditionFailed::NotSixteenPasses => "Exactly 16 tool passes are required"@,
                EmitPreconditionFailed::NoPassEnabled => "No tool passes enabled"@,
            },
    {
        match self {
            EmitPreconditionFailed::NotSixteenPasses => String::from_str(
                "Exactly 16 tool passes are required",
            ),
            EmitPreconditionFailed::NoPassEnabled => String::from_str("No tool passes enabled"),
        }
    }
}

/// The text of a program is the text of its parts, one after the other.
pub proof fn lemma_program_text_concat(first: Seq<Statement>, second: Seq<Statement>)
    ensures
        program_text(first + second) == program_text(first) + program_text(second),
    decreases second.len(),
{
    if second.len() == 0 {
        assert(first + second =~= first);
        assert(program_text(first) + program_text(second) =~= program_text(first));
    } else {
        assert((first + second).drop_last() =~= first + second.drop_last());
        lemma_program_text_concat(first, second.drop_last());
        assert(program_text(first + second) =~= program_text(first) + program_text(second));
    }
}

/// The text of a program of one statement is the text of that statement.
pub proof fn lemma_program_text_single(statement: Statement)
    ensures
        program_text(seq![statement]) == statement_text(statement),
{
    let program = seq![statement];
    reveal_with_fuel(program_text, 2);
    assert(program.drop_last() =~= Seq::<Statement>::empty());
    assert(program_text(program) =~= statement_text(statement));
}

/// At most one pass is the first enabled one.
pub proof fn lemma_first_enabled_is_unique(tool_passes: Seq<ToolPass>, index: int)
    requires
        is_first_enabled(tool_passes, index),
    ensures
        first_enabled(tool_passes) == index,
{
    let chosen = first_enabled(tool_passes);
    assert(is_first_enabled(tool_passes, chosen));
    if chosen < index {
        assert(!tool_passes[chosen]@.enabled);
    } else if index < chosen {
        assert(!tool_passes[index]@.enabled);
    }
}

/// Appends some HPGL to the end of an existing HPGL string.
pub fn append_hpgl(hpgl: &mut String, to_append: &str)
    ensures
        final(hpgl)@ == old(hpgl)@ + to_append@,
{
    hpgl.append(to_append);
}

/// Generates the HPGL for a pen change to the pen at `pen_index`, counted from zero.
pub fn pen_change(pen_index: usize) -> (hpgl: String)
    ensures
        hpgl@ == statement_text(Statement::SelectPen(pen_index + 1)),
{
    let mut hpgl = String::from_str("SP");
    push_decimal_digits(&mut hpgl, pen_index as u128 + 1);
    hpgl.append(";");
    hpgl
}

/// Appends a move to a point, with the pen up or down as the mnemonic says.
fn push_move(hpgl: &mut String, mnemonic: &str, point: &ResolvedPoint)
    ensures
        final(hpgl)@ == old(hpgl)@ + (mnemonic@ + decimal(point.x as int) + ","@ + decimal(
            point.y as int,
        ) + ";"@),
{
    hpgl.append(mnemonic);
    push_decimal(hpgl, point.x);
    hpgl.append(",");
    push_decimal(hpgl, point.y);
    hpgl.append(";");
    assert(hpgl@ =~= old(hpgl)@ + (mnemonic@ + decimal(point.x as int) + ","@ + decimal(
        point.y as int,
    ) + ";"@));
}

/// Creates the HPGL that traces through all of the points in a path: pen up
/// to the first point, pen down to each point after it.
pub fn trace_path(path: &ResolvedPath) -> (hpgl: String)
    ensures
        hpgl@ == program_text(trace_statements(path@)),
{
    let mut hpgl = String::new();
    let ghost statements = trace_statements(path@);
    let mut i: usize = 0;
    assert(statements.take(0) =~= Seq::<Statement>::empty());
    while i < path.len()
        invariant
            i <= path@.len(),
            statements == trace_statements(path@),
            hpgl@ == program_text(statements.take(i as int)),
        decreases path@.len() - i,
    {
        let ghost before = hpgl@;
        if i == 0 {
            push_move(&mut hpgl, "PU", &path[i]);
        } else {
            push_move(&mut hpgl, "PD", &path[i]);
        }
        proof {
            let next = statements.take(i as int + 1);
            assert(next.drop_last() =~= statements.take(i as int));
            assert(next.last() == statements[i as int]);
            assert(hpgl@ == before + statement_text(statements[i as int]));
        }
        i += 1;
    }
    assert(statements.take(i as int) =~= statements);
    hpgl
}

/// The position of the first enabled pass, if any pass is enabled.
fn find_first_enabled(tool_passes: &[ToolPass]) -> (found: Option<usize>)
    ensures
        match found {
            Some(index) => is_first_enabled(tool_passes@, index as int),
            None => !any_enabled(tool_passes@),
        },
{
    let mut i: usize = 0;
    while i < tool_passes.len()
        invariant
            i <= tool_passes@.len(),
            forall|k: int| 0 <= k < i ==> !(#[trigger] tool_passes@[k])@.enabled,
        decreases tool_passes@.len() - i,
    {
        if *tool_passes[i].enabled() {
            return Some(i);
        }
        i += 1;
    }
    None
}

/// Appends the HPGL of the paths of one bucket.
fn append_bucket(hpgl: &mut String, paths: &Vec<ResolvedPath>)
    ensures
        final(hpgl)@ == old(hpgl)@ + program_text(bucket_statements(polylines(paths@))),
{
    let ghost lines = polylines(paths@);
    let mut j: usize = 0;
    assert(lines.take(0) =~= Seq::<Seq<ResolvedPoint>>::empty());
    assert(hpgl@ =~= old(hpgl)@ + program_text(bucket_statements(lines.take(0))));
    while j < paths.len()
        invariant
            j <= paths@.len(),
            lines == polylines(paths@),
            hpgl@ == old(hpgl)@ + program_text(bucket_statements(lines.take(j as int))),
        decreases paths@.len() - j,
    {
        let traced = trace_path(&paths[j]);
        append_hpgl(hpgl, traced.as_str());
        proof {
            let next = lines.take(j as int + 1);
            assert(next.drop_last() =~= lines.take(j as int));
            assert(next.last() == paths@[j as int]@);
            lemma_program_text_concat(
                bucket_statements(lines.take(j as int)),
                trace_statements(paths@[j as int]@),
            );
            assert(hpgl@ =~= old(hpgl)@ + program_text(bucket_statements(next)));
        }
        j += 1;
    }
    assert(lines.take(j as int) =~= lines);
}

/// Generates the HPGL for a design.
///
/// The program selects the pen of the first enabled pass and goes to the
/// origin. Then, pass by pass in tool-pass order, wherever the pass is enabled
/// and there are paths of its colour, it selects the pen of that pass and
/// traces those paths. It ends at the origin with the pen put away.
///
/// Passes that share a colour each trace the paths of that colour, each with
/// its own pen, on its own turn.
pub fn generate_hpgl(
    resolved_paths: &PathsByColour<ResolvedPath>,
    tool_passes: &[ToolPass],
) -> (generated: Result<String, EmitPreconditionFailed>)
    ensures
        match generated {
            Ok(hpgl) => {
                &&& tool_passes@.len() == REQUIRED_TOOL_PASSES
                &&& any_enabled(tool_passes@)
                &&& hpgl@ == program_text(design_statements(tool_passes@, lines_of(*resolved_paths)))
                &&& is_program_text(hpgl@)
            },
            Err(EmitPreconditionFailed::NotSixteenPasses) => tool_passes@.len()
                != REQUIRED_TOOL_PASSES,
            Err(EmitPreconditionFailed::NoPassEnabled) => tool_passes@.len()
                == REQUIRED_TOOL_PASSES && !any_enabled(tool_passes@),
        },
{
    if tool_passes.len() != REQUIRED_TOOL_PASSES {
        return Err(EmitPreconditionFailed::NotSixteenPasses);
    }
    let first_pen = match find_first_enabled(tool_passes) {
        Some(index) => index,
        None => {
            return Err(EmitPreconditionFailed::NoPassEnabled);
        },
    };
    proof {
        lemma_first_enabled_is_unique(tool_passes@, first_pen as int);
    }
    let ghost passes = tool_passes@;
    let ghost opening = opening_statements(first_pen as int);

    // In, Default Coordinate System, Pen Up, Select first pen, reset line type, move to 0,0.
    let mut hpgl = String::from_str("IN;SC;PU;");
    append_hpgl(&mut hpgl, pen_change(first_pen).as_str());
    append_hpgl(&mut hpgl, "LT;");
    push_move(&mut hpgl, "PU", &ResolvedPoint { x: 0, y: 0 });
    proof {
        lemma_opening_text(first_pen as int);
        assert(hpgl@ =~= program_text(opening));
        assert(hpgl@ =~= program_text(opening) + program_text(
            passes_statements(passes, lines_of(*resolved_paths), 0),
        ));
    }

    let mut index: usize = 0;
    while index < tool_passes.len()
        invariant
            index <= passes.len(),
            passes == tool_passes@,
            hpgl@ == program_text(opening) + program_text(
                passes_statements(passes, lines_of(*resolved_paths), index as int),
            ),
        decreases passes.len() - index,
    {
        let pass = &tool_passes[index];
        let ghost before = hpgl@;
        let ghost block = pass_statements(passes, lines_of(*resolved_paths), index as int);
        let colour = PathColour(*pass.colour());
        let paths = if *pass.enabled() {
            resolved_paths.get(&colour)
        } else {
            None
        };
        match paths {
            Some(paths) => {
                if paths.len() > 0 {
                    append_hpgl(&mut hpgl, pen_change(index).as_str());
                    append_bucket(&mut hpgl, paths);
                    proof {
                        lemma_program_text_single(Statement::SelectPen(index + 1));
                        lemma_program_text_concat(
                            seq![Statement::SelectPen(index + 1)],
                            bucket_statements(polylines(paths@)),
                        );
                        assert(hpgl@ =~= before + program_text(block));
                    }
                } else {
                    assert(hpgl@ =~= before + program_text(block));
                }
            },
            None => {
                assert(hpgl@ =~= before + program_text(block));
            },
        }
        proof {
            lemma_program_text_concat(
                passes_statements(passes, lines_of(*resolved_paths), index as int),
                block,
            );
            assert(hpgl@ =~= program_text(opening) + program_text(
                passes_statements(passes, lines_of(*resolved_paths), index as int + 1),
            ));
        }
        index += 1;
    }

    let ghost body = passes_statements(passes, lines_of(*resolved_paths), passes.len() as int);
    push_move(&mut hpgl, "PU", &ResolvedPoint { x: 0, y: 0 });
    append_hpgl(&mut hpgl, "SP0;EC0;EC1;OE;");
    proof {
        lemma_closing_text();
        lemma_program_text_concat(opening, body);
        lemma_program_text_concat(opening + body, closing_statements());
        assert(hpgl@ =~= program_text(opening + body + closing_statements()));
        lemma_program_is_well_formed(opening + body + closing_statements());
    }
    Ok(hpgl)
}

/// The text of the opening statements.
proof fn lemma_opening_text(first_pen: int)
    ensures
        program_text(opening_statements(first_pen)) == "IN;SC;PU;"@ + statement_text(
            Statement::SelectPen(first_pen + 1),
        ) + "LT;"@ + ("PU"@ + decimal(0) + ","@ + decimal(0) + ";"@),
{
    let opening = opening_statements(first_pen);
    reveal_with_fuel(program_text, 7);
    reveal_strlit("IN;SC;PU;");
    reveal_strlit("IN;");
    reveal_strlit("SC;");
    reveal_strlit("PU;");
    reveal_strlit("LT;");
    let one = opening.drop_last();
    let two = one.drop_last();
    let three = two.drop_last();
    let four = three.drop_last();
    let five = four.drop_last();
    let six = five.drop_last();
    assert(six =~= Seq::<Statement>::empty());
    assert(program_text(five) =~= "IN;"@);
    assert(program_text(four) =~= "IN;"@ + "SC;"@);
    assert(program_text(three) =~= "IN;"@ + "SC;"@ + "PU;"@);
    assert("IN;"@ + "SC;"@ + "PU;"@ =~= "IN;SC;PU;"@);
    assert(program_text(opening) =~= "IN;SC;PU;"@ + statement_text(
        Statement::SelectPen(first_pen + 1),
    ) + "LT;"@ + ("PU"@ + decimal(0) + ","@ + decimal(0) + ";"@));
}

/// The text of the closing statements.
proof fn lemma_closing_text()
    ensures
        program_text(closing_statements()) == ("PU"@ + decimal(0) + ","@ + decimal(0) + ";"@)
            + "SP0;EC0;EC1;OE;"@,
{
    let closing = closing_statements();
    reveal_with_fuel(program_text, 6);
    reveal_with_fuel(crate::decimal::decimal_digits, 2);
    reveal_strlit("SP0;EC0;EC1;OE;");
    reveal_strlit("SP");
    reveal_strlit("EC");
    reveal_strlit("OE;");
    reveal_strlit(";");
    let one = closing.drop_last();
    let two = one.drop_last();
    let three = two.drop_last();
    let four = three.drop_last();
    let five = four.drop_last();
    assert(five =~= Seq::<Statement>::empty());
    assert(decimal(0) =~= seq!['0']);
    assert(decimal(1) =~= seq!['1']);
    assert(statement_text(Statement::SelectPen(0)) =~= seq!['S', 'P', '0', ';']);
    assert(statement_text(Statement::EnableCutter(0)) =~= seq!['E', 'C', '0', ';']);
    assert(statement_text(Statement::EnableCutter(1)) =~= seq!['E', 'C', '1', ';']);
    assert(statement_text(Statement::OutputError) =~= seq!['O', 'E', ';']);
    assert(program_text(four) =~= "PU"@ + decimal(0) + ","@ + decimal(0) + ";"@);
    assert(program_text(closing) =~= ("PU"@ + decimal(0) + ","@ + decimal(0) + ";"@)
        + "SP0;EC0;EC1;OE;"@);
}

/// Whether a text is the name of one of the statements that a program may hold.
pub open spec fn is_mnemonic(text: Seq<char>) -> bool {
    ||| text == "IN"@
    ||| text == "SC"@
    ||| text == "PU"@
    ||| text == "PD"@
    ||| text == "SP"@
    ||| text == "LT"@
    ||| text == "EC"@
    ||| text == "OE"@
}

/// Whether a text is what may stand between a statement's name and its
/// semicolon: nothing, a decimal integer, or two of them with a comma between.
pub open spec fn is_arguments(text: Seq<char>) -> bool {
    ||| text == Seq::<char>::empty()
    ||| exists|value: int| text == decimal(value)
    ||| exists|x: int, y: int| text == decimal(x) + ","@ + decimal(y)
}

/// Whether a text is one well-formed statement: a name, its arguments, a semicolon.
pub open spec fn is_statement_text(text: Seq<char>) -> bool {
    exists|mnemonic: Seq<char>, arguments: Seq<char>|
        is_mnemonic(mnemonic) && is_arguments(arguments) && text == mnemonic + arguments + ";"@
}

/// Whether a text is a sequence of well-formed statements and nothing else.
pub open spec fn is_program_text(text: Seq<char>) -> bool {
    exists|parts: Seq<Seq<char>>|
        text == joined(parts) && forall|i: int|
            0 <= i < parts.len() ==> is_statement_text(#[trigger] parts[i])
}

/// Every statement is written as one of the eight names, then nothing, one
/// decimal integer or a pair of them, then a semicolon.
pub proof fn lemma_statement_is_well_formed(statement: Statement)
    ensures
        is_statement_text(statement_text(statement)),
{
    reveal_strlit("IN");
    reveal_strlit("SC");
    reveal_strlit("PU");
    reveal_strlit("LT");
    reveal_strlit("OE");
    reveal_strlit("IN;");
    reveal_strlit("SC;");
    reveal_strlit("PU;");
    reveal_strlit("LT;");
    reveal_strlit("OE;");
    reveal_strlit(";");
    let nothing = Seq::<char>::empty();
    let text = statement_text(statement);
    match statement {
        Statement::Initialise => {
            assert(text =~= "IN"@ + nothing + ";"@);
            assert(is_mnemonic("IN"@) && is_arguments(nothing));
        },
        Statement::Scale => {
            assert(text =~= "SC"@ + nothing + ";"@);
            assert(is_mnemonic("SC"@) && is_arguments(nothing));
        },
        Statement::PenUp => {
            assert(text =~= "PU"@ + nothing + ";"@);
            assert(is_mnemonic("PU"@) && is_arguments(nothing));
        },
        Statement::MoveTo(point) => {
            let arguments = decimal(point.x as int) + ","@ + decimal(point.y as int);
            assert(text =~= "PU"@ + arguments + ";"@);
            assert(is_mnemonic("PU"@) && is_arguments(arguments));
        },
        Statement::DrawTo(point) => {
            let arguments = decimal(point.x as int) + ","@ + decimal(point.y as int);
            assert(text =~= "PD"@ + arguments + ";"@);
            assert(is_mnemonic("PD"@) && is_arguments(arguments));
        },
        Statement::SelectPen(pen) => {
            assert(is_mnemonic("SP"@) && is_arguments(decimal(pen)));
        },
        Statement::LineType => {
            assert(text =~= "LT"@ + nothing + ";"@);
            assert(is_mnemonic("LT"@) && is_arguments(nothing));
        },
        Statement::EnableCutter(value) => {
            assert(is_mnemonic("EC"@) && is_arguments(decimal(value)));
        },
        Statement::OutputError => {
            assert(text =~= "OE"@ + nothing + ";"@);
            assert(is_mnemonic("OE"@) && is_arguments(nothing));
        },
    }
}

/// The text of every program is well-formed: each statement ends in a
/// semicolon, is named by one of `IN`, `SC`, `PU`, `PD`, `SP`, `LT`, `EC` and
/// `OE`, and has decimal integers for its coordinates.
pub proof fn lemma_program_is_well_formed(statements: Seq<Statement>)
    ensures
        is_program_text(program_text(statements)),
{
    let parts = statements.map_values(|statement: Statement| statement_text(statement));
    lemma_joined_statement_texts(statements);
    assert forall|i: int| 0 <= i < parts.len() implies is_statement_text(#[trigger] parts[i]) by {
        lemma_statement_is_well_formed(statements[i]);
    }
}

proof fn lemma_joined_statement_texts(statements: Seq<Statement>)
    ensures
        program_text(statements) == joined(
            statements.map_values(|statement: Statement| statement_text(statement)),
        ),
    decreases statements.len(),
{
    let parts = statements.map_values(|statement: Statement| statement_text(statement));
    if statements.len() > 0 {
        lemma_joined_statement_texts(statements.drop_last());
        assert(parts.drop_last() =~= statements.drop_last().map_values(
            |statement: Statement| statement_text(statement),
        ));
    }
}

/// Every coordinate that a program for a design holds lies within the signed
/// 16-bit range of plotter units.
pub proof fn lemma_coordinates_are_in_range(
    tool_passes: Seq<ToolPass>,
    lines: spec_fn((u8, u8, u8)) -> Seq<Seq<ResolvedPoint>>,
    index: int,
)
    requires
        0 <= index < design_statements(tool_passes, lines).len(),
    ensures
        match design_statements(tool_passes, lines)[index] {
            Statement::MoveTo(point) | Statement::DrawTo(point) => {
                &&& -32768 <= point.x <= 32767
                &&& -32768 <= point.y <= 32767
            },
            _ => true,
        },
{
}

/// Paths are traced only for enabled passes: where the statements of a pass
/// are not empty, the pass is enabled, they begin by selecting its pen, and
/// what follows traces the paths of its colour.
pub proof fn lemma_only_enabled_passes_trace(
    tool_passes: Seq<ToolPass>,
    lines: spec_fn((u8, u8, u8)) -> Seq<Seq<ResolvedPoint>>,
    index: int,
)
    requires
        0 <= index < tool_passes.len(),
        pass_statements(tool_passes, lines, index).len() > 0,
    ensures
        tool_passes[index]@.enabled,
        crate::paths::colour_is_enabled(tool_passes, tool_passes[index]@.colour),
        pass_statements(tool_passes, lines, index)[0] == Statement::SelectPen(index + 1),
        pass_statements(tool_passes, lines, index).skip(1) == bucket_statements(
            lines(tool_passes[index]@.colour),
        ),
{
    let block = pass_statements(tool_passes, lines, index);
    let traced = bucket_statements(lines(tool_passes[index]@.colour));
    assert(block.skip(1) =~= traced);
}

/// Where no enabled pass has paths of its colour, the program is the opening
/// and the closing alone.
pub proof fn lemma_design_without_paths(
    tool_passes: Seq<ToolPass>,
    lines: spec_fn((u8, u8, u8)) -> Seq<Seq<ResolvedPoint>>,
)
    requires
        forall|index: int|
            0 <= index < tool_passes.len() && (#[trigger] tool_passes[index])@.enabled
                ==> lines(tool_passes[index]@.colour).len() == 0,
    ensures
        design_statements(tool_passes, lines) == opening_statements(
            first_enabled(tool_passes),
        ) + closing_statements(),
{
    lemma_passes_without_paths(tool_passes, lines, tool_passes.len() as int);
    assert(opening_statements(first_enabled(tool_passes)) + Seq::<Statement>::empty()
        =~= opening_statements(first_enabled(tool_passes)));
}

proof fn lemma_passes_without_paths(
    tool_passes: Seq<ToolPass>,
    lines: spec_fn((u8, u8, u8)) -> Seq<Seq<ResolvedPoint>>,
    count: int,
)
    requires
        count <= tool_passes.len(),
        forall|index: int|
            0 <= index < tool_passes.len() && (#[trigger] tool_passes[index])@.enabled
                ==> lines(tool_passes[index]@.colour).len() == 0,
    ensures
        passes_statements(tool_passes, lines, count) == Seq::<Statement>::empty(),
    decreases count,
{
    if count > 0 {
        lemma_passes_without_paths(tool_passes, lines, count - 1);
        assert(tool_passes[count - 1]@.enabled ==> lines(tool_passes[count - 1]@.colour).len() == 0);
        assert(passes_statements(tool_passes, lines, count) =~= Seq::<
            Statement,
        >::empty());
    }
}

/// The text of a program without paths, whose first enabled pass is at `first_pen`.
pub proof fn lemma_text_without_paths(first_pen: int)
    ensures
        program_text(opening_statements(first_pen) + closing_statements()) == "IN;SC;PU;SP"@
            + decimal(first_pen + 1) + ";LT;PU0,0;PU0,0;SP0;EC0;EC1;OE;"@,
{
    lemma_program_text_concat(opening_statements(first_pen), closing_statements());
    lemma_opening_text(first_pen);
    lemma_closing_text();
    reveal_with_fuel(crate::decimal::decimal_digits, 2);
    reveal_strlit("IN;SC;PU;SP");
    reveal_strlit("IN;SC;PU;");
    reveal_strlit("SP");
    reveal_strlit(";");
    reveal_strlit(",");
    reveal_strlit("PU");
    reveal_strlit("LT;");
    reveal_strlit(";LT;PU0,0;PU0,0;SP0;EC0;EC1;OE;");
    reveal_strlit("SP0;EC0;EC1;OE;");
    assert(decimal(0) =~= seq!['0']);
    let origin = "PU"@ + decimal(0) + ","@ + decimal(0) + ";"@;
    assert(origin =~= seq!['P', 'U', '0', ',', '0', ';']);
    assert(program_text(opening_statements(first_pen) + closing_statements()) =~= "IN;SC;PU;SP"@
        + decimal(first_pen + 1) + ";LT;PU0,0;PU0,0;SP0;EC0;EC1;OE;"@);
}

/// A program depends on the polylines of the enabled passes' colours alone.
pub proof fn lemma_design_statements_depend_on_pass_colours(
    tool_passes: Seq<ToolPass>,
    first: spec_fn((u8, u8, u8)) -> Seq<Seq<ResolvedPoint>>,
    second: spec_fn((u8, u8, u8)) -> Seq<Seq<ResolvedPoint>>,
)
    requires
        forall|index: int|
            0 <= index < tool_passes.len() && (#[trigger] tool_passes[index])@.enabled ==> first(
                tool_passes[index]@.colour,
            ) == second(tool_passes[index]@.colour),
    ensures
        design_statements(tool_passes, first) == design_statements(tool_passes, second),
{
    lemma_passes_statements_depend_on_pass_colours(
        tool_passes,
        first,
        second,
        tool_passes.len() as int,
    );
}

proof fn lemma_passes_statements_depend_on_pass_colours(
    tool_passes: Seq<ToolPass>,
    first: spec_fn((u8, u8, u8)) -> Seq<Seq<ResolvedPoint>>,
    second: spec_fn((u8, u8, u8)) -> Seq<Seq<ResolvedPoint>>,
    count: int,
)
    requires
        count <= tool_passes.len(),
        forall|index: int|
            0 <= index < tool_passes.len() && (#[trigger] tool_passes[index])@.enabled ==> first(
                tool_passes[index]@.colour,
            ) == second(tool_passes[index]@.colour),
    ensures
        passes_statements(tool_passes, first, count) == passes_statements(
            tool_passes,
            second,
            count,
        ),
    decreases count,
{
    if count > 0 {
        lemma_passes_statements_depend_on_pass_colours(tool_passes, first, second, count - 1);
        assert(tool_passes[count - 1]@.enabled ==> first(tool_passes[count - 1]@.colour) == second(
            tool_passes[count - 1]@.colour,
        ));
    }
}

/// The polylines of each colour that some enabled pass has, and none for the others.
pub open spec fn pruned(
    tool_passes: Seq<ToolPass>,
    lines: spec_fn((u8, u8, u8)) -> Seq<Seq<ResolvedPoint>>,
) -> spec_fn((u8, u8, u8)) -> Seq<Seq<ResolvedPoint>> {
    |colour: (u8, u8, u8)|
        if crate::paths::colour_is_enabled(tool_passes, colour) {
            lines(colour)
        } else {
            Seq::empty()
        }
}

/// Pruning the paths to the colours of enabled passes changes no program:
/// what is pruned would not have been traced.
pub proof fn lemma_pruning_changes_no_program(
    tool_passes: Seq<ToolPass>,
    lines: spec_fn((u8, u8, u8)) -> Seq<Seq<ResolvedPoint>>,
)
    ensures
        design_statements(tool_passes, pruned(tool_passes, lines)) == design_statements(
            tool_passes,
            lines,
        ),
{
    lemma_design_statements_depend_on_pass_colours(
        tool_passes,
        pruned(tool_passes, lines),
        lines,
    );
}

/// The text of every statement is ASCII.
pub proof fn lemma_statement_text_is_ascii(statement: Statement)
    ensures
        is_ascii_text(statement_text(statement)),
{
    reveal_strlit("IN;");
    reveal_strlit("SC;");
    reveal_strlit("PU;");
    reveal_strlit("LT;");
    reveal_strlit("OE;");
    reveal_strlit("PU");
    reveal_strlit("PD");
    reveal_strlit("SP");
    reveal_strlit("EC");
    reveal_strlit(",");
    reveal_strlit(";");
    match statement {
        Statement::MoveTo(point) => {
            lemma_decimal_is_ascii(point.x as int);
            lemma_decimal_is_ascii(point.y as int);
            lemma_ascii_concat("PU"@, decimal(point.x as int));
            lemma_ascii_concat("PU"@ + decimal(point.x as int), ","@);
            lemma_ascii_concat("PU"@ + decimal(point.x as int) + ","@, decimal(point.y as int));
            lemma_ascii_concat(
                "PU"@ + decimal(point.x as int) + ","@ + decimal(point.y as int),
                ";"@,
            );
        },
        Statement::DrawTo(point) => {
            lemma_decimal_is_ascii(point.x as int);
            lemma_decimal_is_ascii(point.y as int);
            lemma_ascii_concat("PD"@, decimal(point.x as int));
            lemma_ascii_concat("PD"@ + decimal(point.x as int), ","@);
            lemma_ascii_concat("PD"@ + decimal(point.x as int) + ","@, decimal(point.y as int));
            lemma_ascii_concat(
                "PD"@ + decimal(point.x as int) + ","@ + decimal(point.y as int),
                ";"@,
            );
        },
        Statement::SelectPen(pen) => {
            lemma_decimal_is_ascii(pen);
            lemma_ascii_concat("SP"@, decimal(pen));
            lemma_ascii_concat("SP"@ + decimal(pen), ";"@);
        },
        Statement::EnableCutter(value) => {
            lemma_decimal_is_ascii(value);
            lemma_ascii_concat("EC"@, decimal(value));
            lemma_ascii_concat("EC"@ + decimal(value), ";"@);
        },
        _ => {},
    }
}

/// The text of every program is ASCII: one byte to the character.
pub proof fn lemma_program_text_is_ascii(statements: Seq<Statement>)
    ensures
        is_ascii_text(program_text(statements)),
    decreases statements.len(),
{
    if statements.len() > 0 {
        lemma_program_text_is_ascii(statements.drop_last());
        lemma_statement_text_is_ascii(statements.last());
        lemma_ascii_concat(
            program_text(statements.drop_last()),
            statement_text(statements.last()),
        );
    }
}

} // verus!
