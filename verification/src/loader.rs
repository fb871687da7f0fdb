//! Programs written as text.
//!
//! A program text is a list of lines. Each line holds tokens, parted by white
//! space; each token is `0x` or `0X` and one or two hex digits, and stands for
//! one byte of the program. A line may hold no token at all.

use vstd::prelude::*;
use crate::hex::{hex_byte, hex_digit_value, hex_value, lemma_hex_digit_value};

verus! {

/// Whether `c` is white space: one of the characters with the Unicode
/// property `White_Space`.
pub open spec fn is_space(c: char) -> bool {
    let code = c as u32;
    ||| 0x09 <= code <= 0x0D
    ||| code == 0x20
    ||| code == 0x85
    ||| code == 0xA0
    ||| code == 0x1680
    ||| 0x2000 <= code <= 0x200A
    ||| code == 0x2028
    ||| code == 0x2029
    ||| code == 0x202F
    ||| code == 0x205F
    ||| code == 0x3000
}

/// The byte that `token` stands for, if it is `0x` or `0X` and one or two hex
/// digits.
pub open spec fn token_byte(token: Seq<char>) -> Option<u8> {
    if 3 <= token.len() <= 4 && token[0] == '0' && (token[1] == 'x' || token[1] == 'X') {
        if token.len() == 3 {
            hex_value(token[2])
        } else {
            match (hex_value(token[2]), hex_value(token[3])) {
                (Some(high), Some(low)) => Some((high * 16 + low) as u8),
                _ => None,
            }
        }
    } else {
        None
    }
}

/// The tokens of `text`: its longest runs of characters that are not white
/// space, in their order.
///
/// A character that is white space adds nothing to the tokens before it. Any
/// other character is added to the last of them if it follows that token
/// directly, and begins a token of its own if it does not.
pub open spec fn tokens(text: Seq<char>) -> Seq<Seq<char>>
    decreases text.len(),
{
    if text.len() == 0 {
        Seq::empty()
    } else {
        let before = tokens(text.drop_last());
        let c = text.last();
        if is_space(c) {
            before
        } else if text.len() >= 2 && !is_space(text[text.len() - 2]) {
            before.drop_last().push(before.last().push(c))
        } else {
            before.push(seq![c])
        }
    }
}

/// The bytes that `tokens` stand for, if each of them stands for a byte.
pub open spec fn bytes_of(tokens: Seq<Seq<char>>) -> Option<Seq<u8>> {
    if forall|i: int| 0 <= i < tokens.len() ==> (#[trigger] token_byte(tokens[i])) is Some {
        Some(Seq::new(tokens.len(), |i: int| token_byte(tokens[i])->Some_0))
    } else {
        None
    }
}

/// The bytes that a line stands for, if each of its tokens stands for a byte.
pub open spec fn line_bytes(line: Seq<char>) -> Option<Seq<u8>> {
    bytes_of(tokens(line))
}

/// The program that the lines of `text` stand for: the bytes of the first
/// line, then those of the second, and so on; nothing if some token on some
/// line stands for no byte.
pub open spec fn program_bytes(text: Seq<Seq<char>>) -> Option<Seq<u8>>
    decreases text.len(),
{
    if text.len() == 0 {
        Some(Seq::empty())
    } else {
        match (program_bytes(text.drop_last()), line_bytes(text.last())) {
            (Some(before), Some(bytes)) => Some(before + bytes),
            _ => None,
        }
    }
}

/// The lines as sequences of characters.
pub open spec fn text_of(lines: Seq<String>) -> Seq<Seq<char>> {
    Seq::new(lines.len(), |i: int| lines[i]@)
}

/// Whether `c` is white space.
fn is_whitespace(c: char) -> (space: bool)
    ensures
        space == is_space(c),
{
    let code: u32 = c as u32;
    (0x09 <= code && code <= 0x0D) || code == 0x20 || code == 0x85 || code == 0xA0 || code
        == 0x1680 || (0x2000 <= code && code <= 0x200A) || code == 0x2028 || code == 0x2029
        || code == 0x202F || code == 0x205F || code == 0x3000
}

/// The byte that a token stands for.
fn parse_token(token: &Vec<char>) -> (byte: Option<u8>)
    ensures
        byte == token_byte(token@),
{
    let len = token.len();
    if len < 3 || len > 4 {
        return None;
    }
    if token[0] != '0' || (token[1] != 'x' && token[1] != 'X') {
        return None;
    }
    match hex_digit_value(token[2]) {
        None => None,
        Some(first) => {
            if len == 3 {
                Some(first)
            } else {
                match hex_digit_value(token[3]) {
                    None => None,
                    Some(second) => Some(first * 16 + second),
                }
            }
        },
    }
}

/// One more token: its byte follows the bytes of the tokens before it, and
/// without its byte there are no bytes at all.
pub proof fn lemma_bytes_of_push(tokens: Seq<Seq<char>>, token: Seq<char>)
    ensures
        bytes_of(tokens.push(token)) == match (bytes_of(tokens), token_byte(token)) {
            (Some(bytes), Some(byte)) => Some(bytes.push(byte)),
            _ => None,
        },
{
    let more = tokens.push(token);
    assert(more.last() == token);
    assert(forall|i: int| 0 <= i < tokens.len() ==> more[i] == tokens[i]);
    match (bytes_of(tokens), token_byte(token)) {
        (Some(bytes), Some(byte)) => {
            assert forall|i: int| 0 <= i < more.len() implies (#[trigger] token_byte(
                more[i],
            )) is Some by {
                if i < tokens.len() {
                    assert(token_byte(tokens[i]) is Some);
                }
            }
            assert(bytes_of(more)->Some_0 =~= bytes.push(byte));
        },
        (None, _) => {
            let i = choose|i: int| 0 <= i < tokens.len() && !(#[trigger] token_byte(
                tokens[i],
            ) is Some);
            assert(token_byte(more[i]) is None);
        },
        (Some(_), None) => {
            assert(token_byte(more[tokens.len() as int]) is None);
        },
    }
}

/// Reads the bytes of one line and appends them to `out`. Returns false if
/// some token on the line stands for no byte.
fn parse_line(line: &str, out: &mut Vec<u8>) -> (valid: bool)
    ensures
        valid == line_bytes(line@) is Some,
        valid ==> final(out)@ == old(out)@ + line_bytes(line@)->Some_0,
{
    let ghost before = out@;
    let ghost mut done: Seq<Seq<char>> = Seq::empty();
    let mut valid = true;
    let mut pending: Vec<char> = Vec::new();
    assert(line@.take(0) =~= Seq::empty());
    assert(before + Seq::<u8>::empty() =~= before);
    for c in it: line.chars()
        invariant
            it.seq() == line@,
            valid == bytes_of(done) is Some,
            valid ==> out@ == before + bytes_of(done)->Some_0,
            pending@.len() > 0 <==> it.index() > 0 && !is_space(line@[it.index() - 1]),
            pending@.len() == 0 ==> done == tokens(line@.take(it.index() as int)),
            pending@.len() > 0 ==> done.push(pending@) == tokens(line@.take(it.index() as int)),
    {
        let ghost i = it.index() as int;
        let ghost read = line@.take(i);
        let ghost more = line@.take(i + 1);
        proof {
            assert(more.drop_last() =~= read);
            assert(more.last() == c);
            assert(i > 0 ==> more[more.len() - 2] == line@[i - 1]);
        }
        if is_whitespace(c) {
            if pending.len() > 0 {
                let byte = parse_token(&pending);
                proof {
                    lemma_bytes_of_push(done, pending@);
                    done = done.push(pending@);
                }
                match byte {
                    Some(b) => {
                        if valid {
                            out.push(b);
                            assert(out@ =~= before + bytes_of(done)->Some_0);
                        }
                    },
                    None => {
                        valid = false;
                    },
                }
                pending = Vec::new();
            }
        } else {
            let ghost token = pending@;
            pending.push(c);
            proof {
                if token.len() > 0 {
                    let grown = done.push(token);
                    assert(grown.drop_last() =~= done);
                    assert(grown.last() == token);
                } else {
                    assert(pending@ =~= seq![c]);
                }
            }
        }
    }
    assert(line@.take(line@.len() as int) =~= line@);
    if pending.len() > 0 {
        let byte = parse_token(&pending);
        proof {
            lemma_bytes_of_push(done, pending@);
            done = done.push(pending@);
        }
        match byte {
            Some(b) => {
                if valid {
                    out.push(b);
                    assert(out@ =~= before + bytes_of(done)->Some_0);
                }
            },
            None => {
                valid = false;
            },
        }
    }
    valid
}

/// Reads a program from the lines of a text.
///
/// Each token on each line is `0x` or `0X` and one or two hex digits, and
/// gives one byte; the bytes come out in the order of the tokens. Lines
/// without a token give nothing. Any other token makes the whole text
/// invalid.
pub fn parse_program_text(lines: &[String]) -> (parsed: Result<Vec<u8>, &'static str>)
    ensures
        parsed matches Ok(bytes) ==> program_bytes(text_of(lines@)) == Some(bytes@),
        parsed matches Err(message) ==> program_bytes(text_of(lines@)) is None && message@
            == "only byte values in hex notation allowed"@,
{
    let ghost text = text_of(lines@);
    let mut out: Vec<u8> = Vec::new();
    let mut valid = true;
    let mut k: usize = 0;
    assert(text.take(0) =~= Seq::empty());
    while k < lines.len()
        invariant
            k <= lines@.len(),
            text == text_of(lines@),
            valid == program_bytes(text.take(k as int)) is Some,
            valid ==> out@ == program_bytes(text.take(k as int))->Some_0,
        decreases lines@.len() - k,
    {
        proof {
            assert(text.take(k + 1).drop_last() =~= text.take(k as int));
            assert(text.take(k + 1).last() == lines@[k as int]@);
        }
        let line_valid = parse_line(lines[k].as_str(), &mut out);
        valid = valid && line_valid;
        k += 1;
    }
    assert(text.take(k as int) =~= text);
    if valid {
        Ok(out)
    } else {
        Err("only byte values in hex notation allowed")
    }
}

/// The text that holds `program` with one byte on each line.
pub open spec fn listing(program: Seq<u8>) -> Seq<Seq<char>> {
    Seq::new(program.len(), |i: int| hex_byte(program[i]))
}

/// Writes a program as text, one byte on each line.
pub fn program_text(program: &[u8]) -> (lines: Vec<String>)
    ensures
        text_of(lines@) == listing(program@),
{
    let mut lines: Vec<String> = Vec::new();
    let mut i: usize = 0;
    while i < program.len()
        invariant
            i <= program@.len(),
            lines@.len() == i,
            forall|j: int| 0 <= j < i ==> (#[trigger] lines@[j])@ == hex_byte(program@[j]),
        decreases program@.len() - i,
    {
        lines.push(crate::hex::hex_byte_text(program[i]));
        i += 1;
    }
    assert(text_of(lines@) =~= listing(program@));
    lines
}

/// A text of white space only holds no token.
pub proof fn lemma_blank(text: Seq<char>)
    requires
        forall|i: int| 0 <= i < text.len() ==> is_space(text[i]),
    ensures
        tokens(text) == Seq::<Seq<char>>::empty(),
        line_bytes(text) == Some(Seq::<u8>::empty()),
    decreases text.len(),
{
    if text.len() > 0 {
        lemma_blank(text.drop_last());
    }
    assert(line_bytes(text)->Some_0 =~= Seq::<u8>::empty());
}

/// A text that ends in a character which is not white space ends in a token
/// that ends in that character.
pub proof fn lemma_last_token(text: Seq<char>)
    requires
        text.len() > 0,
        !is_space(text.last()),
    ensures
        tokens(text).len() > 0,
        tokens(text).last().len() > 0,
        tokens(text).last().last() == text.last(),
{
}

/// White space parts tokens: the tokens of two texts with a white space
/// between them are the tokens of the first and then those of the second.
pub proof fn lemma_tokens_parted(first: Seq<char>, space: char, second: Seq<char>)
    requires
        is_space(space),
    ensures
        tokens(first.push(space) + second) == tokens(first) + tokens(second),
    decreases second.len(),
{
    let whole = first.push(space) + second;
    if second.len() == 0 {
        assert(whole =~= first.push(space));
        assert(whole.drop_last() =~= first);
        assert(tokens(first) + tokens(second) =~= tokens(first));
    } else {
        let shorter = second.drop_last();
        let c = second.last();
        lemma_tokens_parted(first, space, shorter);
        assert(whole.drop_last() =~= first.push(space) + shorter);
        assert(whole.last() == c);
        assert(whole[whole.len() - 2] == if shorter.len() > 0 {
            shorter.last()
        } else {
            space
        });
        if is_space(c) {
        } else if shorter.len() > 0 && !is_space(shorter.last()) {
            lemma_last_token(shorter);
            let head = tokens(first);
            let tail = tokens(shorter);
            assert((head + tail).drop_last() =~= head + tail.drop_last());
            assert((head + tail).last() == tail.last());
            assert((head + tail.drop_last()).push(tail.last().push(c)) =~= head
                + tail.drop_last().push(tail.last().push(c)));
        } else {
            let head = tokens(first);
            let tail = tokens(shorter);
            assert((head + tail).push(seq![c]) =~= head + tail.push(seq![c]));
        }
    }
}

/// The bytes of tokens that come one after another: those of the first, then
/// those of the second, and none where either has none.
pub proof fn lemma_bytes_of_concat(first: Seq<Seq<char>>, second: Seq<Seq<char>>)
    ensures
        bytes_of(first + second) == match (bytes_of(first), bytes_of(second)) {
            (Some(a), Some(b)) => Some(a + b),
            _ => None,
        },
    decreases second.len(),
{
    if second.len() == 0 {
        assert(first + second =~= first);
        assert(bytes_of(second)->Some_0 =~= Seq::<u8>::empty());
        if bytes_of(first) is Some {
            assert(bytes_of(first)->Some_0 + Seq::<u8>::empty() =~= bytes_of(first)->Some_0);
        }
    } else {
        let shorter = second.drop_last();
        let token = second.last();
        lemma_bytes_of_concat(first, shorter);
        assert(first + second =~= (first + shorter).push(token));
        assert(second =~= shorter.push(token));
        lemma_bytes_of_push(first + shorter, token);
        lemma_bytes_of_push(shorter, token);
        match (bytes_of(first), bytes_of(shorter), token_byte(token)) {
            (Some(a), Some(b), Some(byte)) => {
                assert((a + b).push(byte) =~= a + b.push(byte));
            },
            _ => {},
        }
    }
}

/// The program of texts that come one after another: the program of the
/// first, then that of the second, and none where either has none.
pub proof fn lemma_program_bytes_concat(first: Seq<Seq<char>>, second: Seq<Seq<char>>)
    ensures
        program_bytes(first + second) == match (program_bytes(first), program_bytes(second)) {
            (Some(a), Some(b)) => Some(a + b),
            _ => None,
        },
    decreases second.len(),
{
    if second.len() == 0 {
        assert(first + second =~= first);
        if program_bytes(first) is Some {
            assert(program_bytes(first)->Some_0 + Seq::<u8>::empty() =~= program_bytes(
                first,
            )->Some_0);
        }
    } else {
        let shorter = second.drop_last();
        lemma_program_bytes_concat(first, shorter);
        assert((first + second).drop_last() =~= first + shorter);
        assert((first + second).last() == second.last());
        match (program_bytes(first), program_bytes(shorter), line_bytes(second.last())) {
            (Some(a), Some(b), Some(c)) => {
                assert((a + b) + c =~= a + (b + c));
            },
            _ => {},
        }
    }
}

/// Blank lines are ignored: a line of white space only, wherever it stands,
/// changes nothing of the program that a text stands for.
pub proof fn lemma_blank_line_is_ignored(
    before: Seq<Seq<char>>,
    blank: Seq<char>,
    after: Seq<Seq<char>>,
)
    requires
        forall|i: int| 0 <= i < blank.len() ==> is_space(blank[i]),
    ensures
        program_bytes(before + seq![blank] + after) == program_bytes(before + after),
{
    lemma_blank(blank);
    let line = seq![blank];
    assert(line.drop_last() =~= Seq::<Seq<char>>::empty());
    assert(line.last() == blank);
    assert(program_bytes(line.drop_last()) == Some(Seq::<u8>::empty()));
    assert(program_bytes(line)->Some_0 =~= Seq::<u8>::empty());
    lemma_program_bytes_concat(before, line);
    lemma_program_bytes_concat(before + line, after);
    lemma_program_bytes_concat(before, after);
    if program_bytes(before) is Some {
        assert(program_bytes(before)->Some_0 + Seq::<u8>::empty() =~= program_bytes(
            before,
        )->Some_0);
    }
}

/// One token that stands for no byte spoils the text: a text stands for a
/// program exactly if each of its lines stands for bytes.
pub proof fn lemma_program_bytes_by_line(text: Seq<Seq<char>>)
    ensures
        program_bytes(text) is Some <==> forall|i: int|
            0 <= i < text.len() ==> (#[trigger] line_bytes(text[i])) is Some,
    decreases text.len(),
{
    if text.len() > 0 {
        let shorter = text.drop_last();
        lemma_program_bytes_by_line(shorter);
        assert(forall|i: int| 0 <= i < shorter.len() ==> shorter[i] == text[i]);
        if program_bytes(text) is Some {
            assert forall|i: int| 0 <= i < text.len() implies (#[trigger] line_bytes(
                text[i],
            )) is Some by {
                if i < shorter.len() {
                    assert(line_bytes(shorter[i]) is Some);
                }
            }
        } else if program_bytes(shorter) is None {
            let i = choose|i: int|
                0 <= i < shorter.len() && !((#[trigger] line_bytes(shorter[i])) is Some);
            assert(line_bytes(text[i]) is None);
        } else {
            assert(line_bytes(text[text.len() - 1]) is None);
        }
    }
}

/// A text without white space is one token.
pub proof fn lemma_single_token(text: Seq<char>)
    requires
        text.len() > 0,
        forall|i: int| 0 <= i < text.len() ==> !is_space(text[i]),
    ensures
        tokens(text) == seq![text],
    decreases text.len(),
{
    let before = text.drop_last();
    if text.len() == 1 {
        assert(tokens(before) =~= Seq::<Seq<char>>::empty());
        assert(seq![text.last()] =~= text);
        assert(tokens(text) =~= seq![text]);
    } else {
        lemma_single_token(before);
        assert(before.push(text.last()) =~= text);
        assert(tokens(text) =~= seq![text]);
    }
}

/// A byte written as text is a line of one token that stands for the byte.
pub proof fn lemma_byte_line(byte: u8)
    ensures
        tokens(hex_byte(byte)) == seq![hex_byte(byte)],
        token_byte(hex_byte(byte)) == Some(byte),
        line_bytes(hex_byte(byte)) == Some(seq![byte]),
{
    let line = hex_byte(byte);
    lemma_hex_digit_value(byte as int / 16);
    lemma_hex_digit_value(byte as int % 16);
    lemma_single_token(line);
    assert(line_bytes(line)->Some_0 =~= seq![byte]);
}

/// What is written can be read: the listing of a program stands for that
/// program.
pub proof fn lemma_listing_parses(program: Seq<u8>)
    ensures
        program_bytes(listing(program)) == Some(program),
    decreases program.len(),
{
    if program.len() > 0 {
        lemma_listing_parses(program.drop_last());
        lemma_byte_line(program.last());
        assert(listing(program).drop_last() =~= listing(program.drop_last()));
        assert(program.drop_last() + seq![program.last()] =~= program);
    }
}

} // verus!
