//! The guide that is shown beside the pricing script: a small part of Markdown,
//! read into blocks.

use crate::text;
use vstd::prelude::*;

verus! {

/// A block of the guide.
#[derive(Debug)]
pub enum GuideBlock {
    Code(String),
    Table(Vec<Vec<String>>),
    Title(String),
    Heading(String),
    Bullet(String),
    Gap,
    Paragraph(String),
}

/// What a block is.
pub enum BlockView {
    Code(Seq<char>),
    Table(Seq<Seq<Seq<char>>>),
    Title(Seq<char>),
    Heading(Seq<char>),
    Bullet(Seq<char>),
    Gap,
    Paragraph(Seq<char>),
}

/// The cells of rows.
pub open spec fn rows_of(rows: Seq<Vec<String>>) -> Seq<Seq<Seq<char>>> {
    rows.map_values(|row: Vec<String>| text::views(row@))
}

impl GuideBlock {
    /// What the block is.
    pub open spec fn view(&self) -> BlockView {
        match self {
            GuideBlock::Code(s) => BlockView::Code(s@),
            GuideBlock::Table(rows) => BlockView::Table(rows_of(rows@)),
            GuideBlock::Title(s) => BlockView::Title(s@),
            GuideBlock::Heading(s) => BlockView::Heading(s@),
            GuideBlock::Bullet(s) => BlockView::Bullet(s@),
            GuideBlock::Gap => BlockView::Gap,
            GuideBlock::Paragraph(s) => BlockView::Paragraph(s@),
        }
    }
}

/// What blocks are.
pub open spec fn blocks_of(blocks: Seq<GuideBlock>) -> Seq<BlockView> {
    blocks.map_values(|b: GuideBlock| b@)
}

/// The cells of a row: what stands between the bars, without space around it
/// and without the bars at the ends.
pub open spec fn cells_of(line: Seq<char>) -> Seq<Seq<char>> {
    let bare = text::without_trailing(text::without_leading(text::trimmed(line), '|'), '|');
    text::pieces(bare, '|').map_values(|cell: Seq<char>| text::trimmed(cell))
}

/// The cells of a row.
pub fn parse_md_row(line: &str) -> (r: Vec<String>)
    ensures
        text::views(r@) == cells_of(line@),
{
    let trimmed: String = text::trim(line);
    let led: String = text::strip_leading(trimmed.as_str(), '|');
    let bare: String = text::strip_trailing(led.as_str(), '|');
    let parts: Vec<String> = text::split(bare.as_str(), '|');
    let ghost all = text::pieces(bare@, '|');
    let mut cells: Vec<String> = Vec::new();
    let mut i: usize = 0;
    while i < parts.len()
        invariant
            i <= parts@.len(),
            cells@.len() == i,
            text::views(parts@) == all,
            forall|j: int| 0 <= j < i ==> (#[trigger] cells@[j])@ == text::trimmed(all[j]),
        decreases parts@.len() - i,
    {
        proof {
            assert(all[i as int] == parts@[i as int]@);
        }
        cells.push(text::trim(parts[i].as_str()));
        i = i + 1;
    }
    proof {
        assert(text::views(cells@) =~= cells_of(line@));
    }
    cells
}

/// Whether a cell is one of the line under a table's head.
pub open spec fn is_rule(cell: Seq<char>) -> bool {
    cell.len() > 0 && (forall|i: int|
        0 <= i < cell.len() ==> (#[trigger] cell[i]) == '-' || cell[i] == ':' || cell[i] == ' ')
}

/// Whether a row is the line under a table's head.
pub open spec fn is_separator(row: Seq<Seq<char>>) -> bool {
    row.len() > 0 && (forall|i: int| 0 <= i < row.len() ==> is_rule(#[trigger] row[i]))
}

fn cell_is_rule(cell: &str) -> (r: bool)
    ensures
        r == is_rule(cell@),
{
    let chars: Vec<char> = text::to_chars(cell);
    let mut i: usize = 0;
    while i < chars.len()
        invariant
            chars@ == cell@,
            i <= chars@.len(),
            forall|j: int|
                0 <= j < i ==> (#[trigger] cell@[j]) == '-' || cell@[j] == ':' || cell@[j] == ' ',
        decreases chars@.len() - i,
    {
        let c: char = chars[i];
        if c != '-' && c != ':' && c != ' ' {
            assert(cell@[i as int] == c);
            return false;
        }
        i = i + 1;
    }
    chars.len() > 0
}

/// Whether a row is the line under a table's head.
pub fn is_md_table_separator(row: &Vec<String>) -> (r: bool)
    ensures
        r == is_separator(text::views(row@)),
{
    let ghost cells = text::views(row@);
    let mut i: usize = 0;
    while i < row.len()
        invariant
            i <= row@.len(),
            cells == text::views(row@),
            forall|j: int| 0 <= j < i ==> is_rule(#[trigger] cells[j]),
        decreases row@.len() - i,
    {
        if !cell_is_rule(row[i].as_str()) {
            assert(!is_rule(cells[i as int]));
            return false;
        }
        assert(cells[i as int] == row@[i as int]@);
        i = i + 1;
    }
    row.len() > 0
}

/// A text without the marks for code.
pub fn strip_md_inline(s: &str) -> (r: String)
    ensures
        r@ == text::without_char(s@, '`'),
{
    text::remove_char(s, '`')
}

/// The text of lines of code. Blank lines at the start are left out.
pub open spec fn code_text(lines: Seq<Seq<char>>) -> Seq<char>
    decreases lines.len(),
{
    if lines.len() == 0 {
        Seq::empty()
    } else {
        let earlier = code_text(lines.drop_last());
        if earlier.len() == 0 {
            lines.last()
        } else {
            earlier + "\n"@ + lines.last()
        }
    }
}

/// Whether a line begins or ends code.
pub open spec fn is_fence(line: Seq<char>) -> bool {
    "```"@.is_prefix_of(line)
}

/// Whether a line belongs to a table.
pub open spec fn is_row(line: Seq<char>) -> bool {
    line.len() > 0 && line[0] == '|'
}

/// The place of the next line that ends code, or that behind the last.
pub open spec fn fence_end(lines: Seq<Seq<char>>, from: int) -> int
    decreases lines.len() - from,
{
    if from >= lines.len() {
        lines.len() as int
    } else if is_fence(lines[from]) {
        from
    } else {
        fence_end(lines, from + 1)
    }
}

/// The place of the next line that belongs to no table, or that behind the
/// last.
pub open spec fn table_end(lines: Seq<Seq<char>>, from: int) -> int
    decreases lines.len() - from,
{
    if from >= lines.len() {
        lines.len() as int
    } else if !is_row(lines[from]) {
        from
    } else {
        table_end(lines, from + 1)
    }
}

/// An end is at or behind the line where it is looked for.
pub proof fn lemma_ends(lines: Seq<Seq<char>>, from: int)
    requires
        0 <= from <= lines.len(),
    ensures
        from <= fence_end(lines, from) <= lines.len(),
        from <= table_end(lines, from) <= lines.len(),
    decreases lines.len() - from,
{
    if from < lines.len() {
        lemma_ends(lines, from + 1);
    }
}

/// The rows of a table, without the line under its head.
pub open spec fn table_rows(lines: Seq<Seq<char>>) -> Seq<Seq<Seq<char>>>
    decreases lines.len(),
{
    if lines.len() == 0 {
        Seq::empty()
    } else {
        let earlier = table_rows(lines.drop_last());
        let row = cells_of(lines.last());
        if is_separator(row) {
            earlier
        } else {
            earlier.push(row)
        }
    }
}

/// What a line is that begins neither code nor a table.
pub open spec fn single_block(line: Seq<char>) -> BlockView {
    if "# "@.is_prefix_of(line) {
        BlockView::Title(text::without_char(line.skip(2), '`'))
    } else if "## "@.is_prefix_of(line) {
        BlockView::Heading(text::without_char(line.skip(3), '`'))
    } else if "- "@.is_prefix_of(line) {
        BlockView::Bullet(text::without_char(line.skip(2), '`'))
    } else if line.len() == 0 {
        BlockView::Gap
    } else {
        BlockView::Paragraph(text::without_char(line, '`'))
    }
}

/// The blocks of lines, from some line on.
pub open spec fn blocks_from(lines: Seq<Seq<char>>, from: int) -> Seq<BlockView>
    decreases
            if from < lines.len() {
                lines.len() - from
            } else {
                0
            },
{
    if from < 0 || from >= lines.len() {
        Seq::empty()
    } else if is_fence(lines[from]) {
        let end = fence_end(lines, from + 1);
        proof {
            lemma_ends(lines, from + 1);
        }
        seq![BlockView::Code(code_text(lines.subrange(from + 1, end)))] + blocks_from(
            lines,
            end + 1,
        )
    } else if is_row(lines[from]) {
        let end = table_end(lines, from + 1);
        proof {
            lemma_ends(lines, from + 1);
        }
        seq![BlockView::Table(table_rows(lines.subrange(from, end)))] + blocks_from(lines, end)
    } else {
        seq![single_block(lines[from])] + blocks_from(lines, from + 1)
    }
}

fn skip_chars(line: &str, count: usize) -> (r: String)
    requires
        count <= line@.len(),
    ensures
        r@ == line@.skip(count as int),
{
    let chars: Vec<char> = text::to_chars(line);
    proof {
        assert(line@.subrange(count as int, line@.len() as int) =~= line@.skip(count as int));
    }
    text::slice_chars(&chars, count, chars.len())
}

fn parse_single(line: &str) -> (r: GuideBlock)
    ensures
        r@ == single_block(line@),
{
    proof {
        reveal_strlit("# ");
        reveal_strlit("## ");
        reveal_strlit("- ");
    }
    if text::starts_with(line, "# ") {
        GuideBlock::Title(strip_md_inline(skip_chars(line, 2).as_str()))
    } else if text::starts_with(line, "## ") {
        GuideBlock::Heading(strip_md_inline(skip_chars(line, 3).as_str()))
    } else if text::starts_with(line, "- ") {
        GuideBlock::Bullet(strip_md_inline(skip_chars(line, 2).as_str()))
    } else if text::is_empty(line) {
        GuideBlock::Gap
    } else {
        GuideBlock::Paragraph(strip_md_inline(line))
    }
}

fn line_is_row(line: &str) -> (r: bool)
    ensures
        r == is_row(line@),
{
    let chars: Vec<char> = text::to_chars(line);
    chars.len() > 0 && chars[0] == '|'
}

fn read_code(lines: &Vec<String>, from: usize) -> (r: (String, usize))
    requires
        from <= lines@.len(),
    ensures
        r.1 == fence_end(text::views(lines@), from as int),
        from <= r.1 <= lines@.len(),
        r.0@ == code_text(text::views(lines@).subrange(from as int, r.1 as int)),
{
    let ghost all = text::views(lines@);
    let mut code: String = String::new();
    let mut i: usize = from;
    proof {
        assert(all.subrange(from as int, from as int) =~= Seq::empty());
    }
    while i < lines.len()
        invariant
            from <= i <= lines@.len(),
            all == text::views(lines@),
            fence_end(all, from as int) == fence_end(all, i as int),
            code@ == code_text(all.subrange(from as int, i as int)),
        decreases lines@.len() - i,
    {
        assert(all[i as int] == lines@[i as int]@);
        if text::starts_with(lines[i].as_str(), "```") {
            return (code, i);
        }
        proof {
            let longer = all.subrange(from as int, i + 1);
            assert(longer.drop_last() =~= all.subrange(from as int, i as int));
            assert(longer.last() == all[i as int]);
        }
        code =
        if text::is_empty(code.as_str()) {
            lines[i].clone()
        } else {
            text::concat3(code.as_str(), "\n", lines[i].as_str())
        };
        i = i + 1;
    }
    (code, i)
}

fn read_table(lines: &Vec<String>, from: usize) -> (r: (Vec<Vec<String>>, usize))
    requires
        from < lines@.len(),
        is_row(text::views(lines@)[from as int]),
    ensures
        r.1 == table_end(text::views(lines@), from + 1),
        from < r.1 <= lines@.len(),
        rows_of(r.0@) == table_rows(text::views(lines@).subrange(from as int, r.1 as int)),
{
    let ghost all = text::views(lines@);
    let mut rows: Vec<Vec<String>> = Vec::new();
    let mut i: usize = from;
    proof {
        assert(all.subrange(from as int, from as int) =~= Seq::empty());
        assert(rows_of(rows@) =~= Seq::empty());
    }
    while i < lines.len()
        invariant
            from <= i <= lines@.len(),
            from < lines@.len(),
            all == text::views(lines@),
            is_row(all[from as int]),
            i > from ==> table_end(all, from + 1) == table_end(all, i as int),
            rows_of(rows@) == table_rows(all.subrange(from as int, i as int)),
        decreases lines@.len() - i,
    {
        assert(all[i as int] == lines@[i as int]@);
        if !line_is_row(lines[i].as_str()) {
            return (rows, i);
        }
        let ghost before = rows@;
        proof {
            let longer = all.subrange(from as int, i + 1);
            assert(longer.drop_last() =~= all.subrange(from as int, i as int));
            assert(longer.last() == all[i as int]);
        }
        let row: Vec<String> = parse_md_row(lines[i].as_str());
        let ghost cells = text::views(row@);
        if !is_md_table_separator(&row) {
            rows.push(row);
            proof {
                assert(rows_of(rows@) =~= rows_of(before).push(cells));
            }
        }
        i = i + 1;
    }
    (rows, i)
}

/// The blocks of the guide.
pub fn parse_guide(source: &str) -> (r: Vec<GuideBlock>)
    ensures
        blocks_of(r@) == blocks_from(text::lines_of(source@), 0),
{
    let lines: Vec<String> = text::split_lines(source);
    let ghost all = text::lines_of(source@);
    let mut blocks: Vec<GuideBlock> = Vec::new();
    let mut i: usize = 0;
    proof {
        assert(blocks_of(blocks@) + blocks_from(all, 0) =~= blocks_from(all, 0));
    }
    while i < lines.len()
        invariant
            i <= lines@.len(),
            all == text::views(lines@),
            blocks_from(all, 0) == blocks_of(blocks@) + blocks_from(all, i as int),
        decreases lines@.len() - i,
    {
        let ghost before = blocks@;
        let ghost here = i as int;
        assert(all[i as int] == lines@[i as int]@);
        if text::starts_with(lines[i].as_str(), "```") {
            let (code, end): (String, usize) = read_code(&lines, i + 1);
            blocks.push(GuideBlock::Code(code));
            i =
            if end < lines.len() {
                end + 1
            } else {
                end
            };
            proof {
                assert(blocks_from(all, end + 1) == blocks_from(all, i as int));
            }
        } else if line_is_row(lines[i].as_str()) {
            let (rows, end): (Vec<Vec<String>>, usize) = read_table(&lines, i);
            blocks.push(GuideBlock::Table(rows));
            i = end;
        } else {
            blocks.push(parse_single(lines[i].as_str()));
            i = i + 1;
        }
        proof {
            let block = blocks@.last()@;
            assert(blocks_of(blocks@) =~= blocks_of(before) + seq![block]);
            assert(blocks_from(all, here) == seq![block] + blocks_from(all, i as int));
            assert(blocks_of(before) + (seq![block] + blocks_from(all, i as int)) =~= blocks_of(
                blocks@,
            ) + blocks_from(all, i as int));
        }
    }
    proof {
        assert(blocks_of(blocks@) + blocks_from(all, i as int) =~= blocks_of(blocks@));
    }
    blocks
}

/// The most cells that a row of a table has.
pub open spec fn widest(rows: Seq<Seq<Seq<char>>>) -> nat
    decreases rows.len(),
{
    if rows.len() == 0 {
        0
    } else if rows.last().len() > widest(rows.drop_last()) {
        rows.last().len()
    } else {
        widest(rows.drop_last())
    }
}

/// The number of columns of a table.
pub fn column_count(rows: &Vec<Vec<String>>) -> (r: usize)
    ensures
        r == widest(rows_of(rows@)),
{
    let ghost all = rows_of(rows@);
    let mut count: usize = 0;
    let mut i: usize = 0;
    while i < rows.len()
        invariant
            i <= rows@.len(),
            all == rows_of(rows@),
            count == widest(all.take(i as int)),
        decreases rows@.len() - i,
    {
        proof {
            assert(all.take(i + 1).drop_last() =~= all.take(i as int));
            assert(all.take(i + 1).last().len() == rows@[i as int]@.len());
        }
        if rows[i].len() > count {
            count = rows[i].len();
        }
        i = i + 1;
    }
    proof {
        assert(all.take(i as int) =~= all);
    }
    count
}

/// What a table shows in one of its columns: nothing where a row is shorter.
pub fn cell_text(row: &Vec<String>, column: usize) -> (r: String)
    ensures
        r@ == if column < row@.len() {
            text::without_char(row@[column as int]@, '`')
        } else {
            Seq::empty()
        },
{
    if column < row.len() {
        strip_md_inline(row[column].as_str())
    } else {
        String::new()
    }
}

/// A line with a mark at its front is what the mark says, without the mark and
/// without the marks for code; an empty line is a gap and any other a
/// paragraph.
pub proof fn law_marks_make_blocks(said: Seq<char>)
    ensures
        single_block("# "@ + said) == BlockView::Title(text::without_char(said, '`')),
        single_block("## "@ + said) == BlockView::Heading(text::without_char(said, '`')),
        single_block("- "@ + said) == BlockView::Bullet(text::without_char(said, '`')),
        single_block(Seq::empty()) == BlockView::Gap,
        said.len() > 0 && said[0] != '#' && said[0] != '-' ==> single_block(said)
            == BlockView::Paragraph(text::without_char(said, '`')),
{
    reveal_strlit("# ");
    reveal_strlit("## ");
    reveal_strlit("- ");
    let a = "# "@ + said;
    let b = "## "@ + said;
    let c = "- "@ + said;
    assert("# "@ =~= a.take(2));
    assert(a.skip(2) =~= said);
    assert("## "@ =~= b.take(3));
    assert(b.skip(3) =~= said);
    assert("- "@ =~= c.take(2));
    assert(c.skip(2) =~= said);
    assert(b[1] == '#');
    assert("# "@[1] == ' ');
    assert(c[0] == '-');
    assert("# "@[0] == '#' && "## "@[0] == '#' && "- "@[0] == '-');
    if "# "@.is_prefix_of(b) {
        assert(b.take(2)[1] == b[1]);
    }
    if "# "@.is_prefix_of(c) {
        assert(c.take(2)[0] == c[0]);
    }
    if "## "@.is_prefix_of(c) {
        assert(c.take(3)[0] == c[0]);
    }
}

/// A table has the rows of its lines in their order, but for the line under its
/// head.
pub proof fn law_rule_lines_are_left_out(lines: Seq<Seq<char>>, line: Seq<char>)
    ensures
        is_separator(cells_of(line)) ==> table_rows(lines.push(line)) == table_rows(lines),
        !is_separator(cells_of(line)) ==> table_rows(lines.push(line)) == table_rows(lines).push(
            cells_of(line),
        ),
        lines.len() == 0 ==> table_rows(lines).len() == 0,
{
    assert(lines.push(line).drop_last() =~= lines);
}

/// Code goes on to the next line that ends it, and a table to the next line
/// that belongs to none.
pub proof fn law_blocks_end_at_the_next_mark(lines: Seq<Seq<char>>, from: int)
    requires
        0 <= from <= lines.len(),
    ensures
        from <= fence_end(lines, from) <= lines.len(),
        from <= table_end(lines, from) <= lines.len(),
        forall|i: int| from <= i < fence_end(lines, from) ==> !is_fence(#[trigger] lines[i]),
        forall|i: int| from <= i < table_end(lines, from) ==> is_row(#[trigger] lines[i]),
        fence_end(lines, from) < lines.len() ==> is_fence(lines[fence_end(lines, from)]),
        table_end(lines, from) < lines.len() ==> !is_row(lines[table_end(lines, from)]),
    decreases lines.len() - from,
{
    if from < lines.len() {
        law_blocks_end_at_the_next_mark(lines, from + 1);
    }
}

/// Every row fits in the columns of a table, and one of them fills them.
pub proof fn law_columns_hold_every_row(rows: Seq<Seq<Seq<char>>>)
    ensures
        forall|i: int| 0 <= i < rows.len() ==> (#[trigger] rows[i]).len() <= widest(rows),
        rows.len() > 0 ==> exists|i: int|
            0 <= i < rows.len() && (#[trigger] rows[i]).len() == widest(rows),
    decreases rows.len(),
{
    if rows.len() > 0 {
        let front = rows.drop_last();
        law_columns_hold_every_row(front);
        assert forall|i: int| 0 <= i < rows.len() implies (#[trigger] rows[i]).len() <= widest(
            rows,
        ) by {
            if i < rows.len() - 1 {
                assert(front[i] == rows[i]);
            }
        }
        if rows.last().len() > widest(front) || front.len() == 0 {
            assert(rows[rows.len() - 1].len() == widest(rows));
        } else {
            let i = choose|i: int|
                0 <= i < front.len() && (#[trigger] front[i]).len() == widest(front);
            assert(rows[i] == front[i]);
        }
    }
}

/// The lines of code are kept in their order with line feeds between them.
pub proof fn law_code_keeps_its_lines(lines: Seq<Seq<char>>, line: Seq<char>)
    ensures
        code_text(lines).len() > 0 ==> code_text(lines.push(line)) == code_text(lines) + "\n"@
            + line,
        lines.len() == 0 ==> code_text(lines.push(line)) == line,
{
    assert(lines.push(line).drop_last() =~= lines);
}

/// A line that begins neither code nor a table is one block, and what is behind
/// it is read on its own. Code between two fences is one block of its lines.
pub proof fn law_blocks_follow_each_other(lines: Seq<Seq<char>>, from: int)
    requires
        0 <= from < lines.len(),
    ensures
        !is_fence(lines[from]) && !is_row(lines[from]) ==> blocks_from(lines, from) == seq![
            single_block(lines[from]),
        ] + blocks_from(lines, from + 1),
        is_fence(lines[from]) && from + 1 < lines.len() && is_fence(lines[from + 1])
            ==> blocks_from(lines, from) == seq![BlockView::Code(Seq::empty())] + blocks_from(
            lines,
            from + 2,
        ),
        is_row(lines[from]) && !is_fence(lines[from]) && from + 1 < lines.len() && !is_row(
            lines[from + 1],
        ) ==> blocks_from(lines, from) == seq![
            BlockView::Table(table_rows(seq![lines[from]])),
        ] + blocks_from(lines, from + 1),
{
    if is_fence(lines[from]) && from + 1 < lines.len() && is_fence(lines[from + 1]) {
        assert(fence_end(lines, from + 1) == from + 1);
        assert(lines.subrange(from + 1, from + 1) =~= Seq::<Seq<char>>::empty());
        assert(code_text(Seq::<Seq<char>>::empty()) =~= Seq::<char>::empty());
    }
    if is_row(lines[from]) && !is_fence(lines[from]) && from + 1 < lines.len() && !is_row(
        lines[from + 1],
    ) {
        assert(table_end(lines, from + 1) == from + 1);
        assert(lines.subrange(from, from + 1) =~= seq![lines[from]]);
    }
}

} // verus!
