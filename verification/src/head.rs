//! What a run prints: the head of each input, framed by separators and
//! headers on standard output, and a diagnostic on standard error for each
//! input that could not be opened.

use vstd::prelude::*;
use vstd::string::*;
use vstd::utf8::{encode_utf8, valid_utf8};
use crate::config::{Config, Limit, Settings};

verus! {

/// The byte that ends a line.
pub const LINE_FEED: u8 = 10;

/// The length of the head of `data` that holds its first `count` lines. A
/// line reaches up to and including its line feed; a last line may lack one.
pub open spec fn lines_len(data: Seq<u8>, count: nat) -> nat
    decreases data.len(),
{
    if count == 0 || data.len() == 0 {
        0
    } else if data[0] == LINE_FEED {
        1 + lines_len(data.skip(1), (count - 1) as nat)
    } else {
        1 + lines_len(data.skip(1), count)
    }
}

/// The number of line feeds in `data`.
pub open spec fn line_feeds(data: Seq<u8>) -> nat
    decreases data.len(),
{
    if data.len() == 0 {
        0
    } else if data[0] == LINE_FEED {
        1 + line_feeds(data.skip(1))
    } else {
        line_feeds(data.skip(1))
    }
}

/// The number of lines in `data`: one for each line feed, and one more for
/// an unfinished last line.
pub open spec fn line_count(data: Seq<u8>) -> nat {
    if data.len() > 0 && data.last() != LINE_FEED {
        line_feeds(data) + 1
    } else {
        line_feeds(data)
    }
}

/// The first `count` lines of `data`, verbatim.
pub open spec fn line_prefix(data: Seq<u8>, count: nat) -> Seq<u8> {
    data.take(lines_len(data, count) as int)
}

/// The first `count` bytes of `data`, or all of it where it is shorter.
pub open spec fn byte_prefix(data: Seq<u8>, count: nat) -> Seq<u8> {
    if count <= data.len() {
        data.take(count as int)
    } else {
        data
    }
}

/// The text that lossy UTF-8 decoding makes of `bytes`: each invalid
/// sequence becomes the replacement character.
pub uninterp spec fn utf8_lossy(bytes: Seq<u8>) -> Seq<char>;

/// What an input with content `data` contributes after its header.
pub open spec fn body_of(limit: Limit, data: Seq<u8>) -> Seq<u8> {
    match limit {
        Limit::Lines(n) => line_prefix(data, n as nat),
        Limit::Bytes(n) => encode_utf8(utf8_lossy(byte_prefix(data, n as nat))),
    }
}

/// The blank line that goes before every input but the first.
pub open spec fn separator_of(index: int) -> Seq<u8> {
    if index > 0 {
        encode_utf8("\n"@)
    } else {
        Seq::<u8>::empty()
    }
}

/// The line `==> name <==`.
pub open spec fn banner_of(name: Seq<char>) -> Seq<u8> {
    encode_utf8("==> "@) + encode_utf8(name) + encode_utf8(" <==\n"@)
}

/// The header of an input: its banner where the run has several inputs.
pub open spec fn header_of(total: int, name: Seq<char>) -> Seq<u8> {
    if total > 1 {
        banner_of(name)
    } else {
        Seq::<u8>::empty()
    }
}

/// The line `head: name: message`.
pub open spec fn diagnostic_of(name: Seq<char>, message: Seq<char>) -> Seq<u8> {
    encode_utf8("head: "@) + encode_utf8(name) + encode_utf8(": "@) + encode_utf8(message)
        + encode_utf8("\n"@)
}

/// What became of one input.
#[derive(Debug)]
pub enum Source {
    /// It could not be opened; the text says why.
    Unopened(String),
    /// It was opened and read: the bytes that were read.
    Complete(Vec<u8>),
    /// It was opened, but reading failed: the bytes read before that, and
    /// the text that says why.
    Interrupted(Vec<u8>, String),
}

impl Source {
    /// The input was opened.
    pub open spec fn opened(self) -> bool {
        !(self is Unopened)
    }

    /// The bytes read from the input: none where it was not opened.
    pub open spec fn data(self) -> Seq<u8> {
        match self {
            Source::Unopened(_) => Seq::<u8>::empty(),
            Source::Complete(d) => d@,
            Source::Interrupted(d, _) => d@,
        }
    }

    /// The failure that ends the run, where reading this input failed.
    pub open spec fn fault(self) -> Option<Seq<char>> {
        match self {
            Source::Interrupted(_, m) => Some(m@),
            _ => None,
        }
    }
}

/// What is written, and whether the run has to end in failure.
#[derive(Debug)]
pub struct Emission {
    /// The bytes for standard output.
    pub stdout: Vec<u8>,
    /// The bytes for standard error.
    pub stderr: Vec<u8>,
    /// The read failure that ends the run, if there was one.
    pub fatal: Option<String>,
}

/// What the input at `index` contributes to standard output: nothing where
/// it could not be opened; else separator, header and body.
pub open spec fn out_of(settings: Settings, index: int, source: Source) -> Seq<u8> {
    if source.opened() {
        separator_of(index) + header_of(settings.files.len() as int, settings.files[index])
            + body_of(settings.limit(), source.data())
    } else {
        Seq::<u8>::empty()
    }
}

/// What the input at `index` contributes to standard error: its diagnostic
/// where it could not be opened.
pub open spec fn err_of(settings: Settings, index: int, source: Source) -> Seq<u8> {
    match source {
        Source::Unopened(m) => diagnostic_of(settings.files[index], m@),
        _ => Seq::<u8>::empty(),
    }
}

/// How many inputs a run gets through from `from` on: all of them, or up to
/// and including the first whose reading failed.
pub open spec fn reach_from(sources: Seq<Source>, from: int) -> int
    decreases sources.len() - from,
{
    if from < 0 || from >= sources.len() {
        sources.len() as int
    } else if sources[from].fault().is_some() {
        from + 1
    } else {
        reach_from(sources, from + 1)
    }
}

/// How many inputs a run gets through.
pub open spec fn reach(sources: Seq<Source>) -> int {
    reach_from(sources, 0)
}

/// Standard output after the first `upto` inputs.
pub open spec fn stream_out(settings: Settings, sources: Seq<Source>, upto: int) -> Seq<u8>
    decreases upto,
{
    if upto <= 0 {
        Seq::<u8>::empty()
    } else {
        stream_out(settings, sources, upto - 1) + out_of(settings, upto - 1, sources[upto - 1])
    }
}

/// Standard error after the first `upto` inputs.
pub open spec fn stream_err(settings: Settings, sources: Seq<Source>, upto: int) -> Seq<u8>
    decreases upto,
{
    if upto <= 0 {
        Seq::<u8>::empty()
    } else {
        stream_err(settings, sources, upto - 1) + err_of(settings, upto - 1, sources[upto - 1])
    }
}

/// The read failure that ends a run, if any input's reading failed.
pub open spec fn fatal_of(sources: Seq<Source>) -> Option<Seq<char>> {
    if reach(sources) > 0 {
        sources[reach(sources) - 1].fault()
    } else {
        None
    }
}

/// Appends `src` to `out`.
pub fn append_bytes(out: &mut Vec<u8>, src: &[u8])
    ensures
        final(out)@ == old(out)@ + src@,
{
    let ghost before = out@;
    let mut i: usize = 0;
    while i < src.len()
        invariant
            i <= src.len(),
            out@ == before + src@.take(i as int),
        decreases src.len() - i,
    {
        out.push(src[i]);
        assert(src@.take(i + 1) =~= src@.take(i as int).push(src@[i as int]));
        i += 1;
    }
    assert(src@.take(i as int) =~= src@);
}

/// The first `count` lines of `data`.
pub fn head_lines(data: &[u8], count: u64) -> (out: Vec<u8>)
    ensures
        out@ == line_prefix(data@, count as nat),
{
    let mut out: Vec<u8> = Vec::new();
    let mut i: usize = 0;
    let mut left: u64 = count;
    assert(data@.skip(0) =~= data@);
    while i < data.len() && left > 0
        invariant
            i <= data.len(),
            out@ == data@.take(i as int),
            lines_len(data@, count as nat) == i + lines_len(data@.skip(i as int), left as nat),
        decreases data.len() - i,
    {
        let b: u8 = data[i];
        out.push(b);
        proof {
            assert(data@.skip(i as int)[0] == b);
            assert(data@.skip(i as int).skip(1) =~= data@.skip(i + 1));
            assert(data@.take(i + 1) =~= data@.take(i as int).push(b));
        }
        if b == LINE_FEED {
            left -= 1;
        }
        i += 1;
    }
    out
}

/// The first `count` bytes of `data`.
pub fn head_bytes(data: &[u8], count: u64) -> (out: Vec<u8>)
    ensures
        out@ == byte_prefix(data@, count as nat),
{
    let mut out: Vec<u8> = Vec::new();
    let mut i: usize = 0;
    while i < data.len() && (i as u64) < count
        invariant
            i <= data.len(),
            i <= count,
            out@ == data@.take(i as int),
        decreases data.len() - i,
    {
        out.push(data[i]);
        assert(data@.take(i + 1) =~= data@.take(i as int).push(data@[i as int]));
        i += 1;
    }
    assert(i == data.len() ==> data@.take(i as int) =~= data@);
    out
}

/// Calls `String::from_utf8_lossy` and takes ownership of what it yields.
/// The contract names the decoded text `utf8_lossy` of the bytes, and claims
/// what the function's documentation says of well-formed input: valid UTF-8
/// is kept as it stands, so that the text's bytes are the bytes given.
#[verifier::external_body]
fn decode_lossy(bytes: &[u8]) -> (text: String)
    ensures
        text@ == utf8_lossy(bytes@),
        valid_utf8(bytes@) ==> encode_utf8(text@) == bytes@,
{
    String::from_utf8_lossy(bytes).into_owned()
}

/// The first `count` bytes of `data`, decoded lossily and encoded again.
pub fn head_text(data: &[u8], count: u64) -> (out: Vec<u8>)
    ensures
        out@ == encode_utf8(utf8_lossy(byte_prefix(data@, count as nat))),
        valid_utf8(byte_prefix(data@, count as nat)) ==> out@ == byte_prefix(data@, count as nat),
{
    let raw = head_bytes(data, count);
    let text = decode_lossy(raw.as_slice());
    let mut out: Vec<u8> = Vec::new();
    append_bytes(&mut out, text.as_str().as_bytes());
    assert(out@ =~= encode_utf8(text@));
    out
}

/// The body of an input with content `data`.
pub fn body(limit: Limit, data: &[u8]) -> (out: Vec<u8>)
    ensures
        out@ == body_of(limit, data@),
{
    match limit {
        Limit::Lines(n) => head_lines(data, n),
        Limit::Bytes(n) => head_text(data, n),
    }
}

/// Puts separator and header before a body: what the input at `index` of
/// `total`, once opened, writes to standard output.
pub fn frame(index: usize, total: usize, name: &str, body: &[u8]) -> (out: Vec<u8>)
    ensures
        out@ == separator_of(index as int) + header_of(total as int, name@) + body@,
{
    let mut out: Vec<u8> = Vec::new();
    if index > 0 {
        append_bytes(&mut out, "\n".as_bytes());
    }
    assert(out@ =~= separator_of(index as int));
    if total > 1 {
        append_bytes(&mut out, "==> ".as_bytes());
        append_bytes(&mut out, name.as_bytes());
        append_bytes(&mut out, " <==\n".as_bytes());
    }
    assert(out@ =~= separator_of(index as int) + header_of(total as int, name@));
    append_bytes(&mut out, body);
    out
}

/// The diagnostic for an input that could not be opened.
pub fn diagnostic(name: &str, message: &str) -> (out: Vec<u8>)
    ensures
        out@ == diagnostic_of(name@, message@),
{
    let mut out: Vec<u8> = Vec::new();
    append_bytes(&mut out, "head: ".as_bytes());
    append_bytes(&mut out, name.as_bytes());
    append_bytes(&mut out, ": ".as_bytes());
    append_bytes(&mut out, message.as_bytes());
    append_bytes(&mut out, "\n".as_bytes());
    assert(out@ =~= diagnostic_of(name@, message@));
    out
}

/// What the input at `index` writes, given what became of it.
pub fn emit(config: &Config, index: usize, source: &Source) -> (e: Emission)
    requires
        index < config.files.len(),
    ensures
        e.stdout@ == out_of(config@, index as int, *source),
        e.stderr@ == err_of(config@, index as int, *source),
        e.fatal.is_some() == source.fault().is_some(),
        e.fatal matches Some(m) ==> source.fault() == Some(m@),
{
    let name = config.files[index].as_str();
    assert(name@ == config@.files[index as int]);
    let total = config.files.len();
    assert(total == config@.files.len());
    match source {
        Source::Unopened(message) => Emission {
            stdout: Vec::new(),
            stderr: diagnostic(name, message.as_str()),
            fatal: None,
        },
        Source::Complete(data) => {
            let content = body(config.limit(), data.as_slice());
            Emission {
                stdout: frame(index, total, name, content.as_slice()),
                stderr: Vec::new(),
                fatal: None,
            }
        },
        Source::Interrupted(data, message) => {
            let content = body(config.limit(), data.as_slice());
            Emission {
                stdout: frame(index, total, name, content.as_slice()),
                stderr: Vec::new(),
                fatal: Some(message.clone()),
            }
        },
    }
}

/// Runs over the inputs in order, `sources[i]` being what became of the
/// input named `config.files[i]`: collects what each writes, and stops after
/// the first whose reading failed.
pub fn run(config: &Config, sources: &Vec<Source>) -> (e: Emission)
    requires
        sources.len() == config.files.len(),
    ensures
        e.stdout@ == stream_out(config@, sources@, reach(sources@)),
        e.stderr@ == stream_err(config@, sources@, reach(sources@)),
        e.fatal.is_some() == fatal_of(sources@).is_some(),
        e.fatal matches Some(m) ==> fatal_of(sources@) == Some(m@),
{
    let mut stdout: Vec<u8> = Vec::new();
    let mut stderr: Vec<u8> = Vec::new();
    let mut i: usize = 0;
    while i < sources.len()
        invariant
            i <= sources.len(),
            sources.len() == config.files.len(),
            stdout@ == stream_out(config@, sources@, i as int),
            stderr@ == stream_err(config@, sources@, i as int),
            reach(sources@) == reach_from(sources@, i as int),
            i > 0 ==> sources@[i - 1].fault().is_none(),
        decreases sources.len() - i,
    {
        let piece = emit(config, i, &sources[i]);
        append_bytes(&mut stdout, piece.stdout.as_slice());
        append_bytes(&mut stderr, piece.stderr.as_slice());
        if piece.fatal.is_some() {
            return Emission { stdout, stderr, fatal: piece.fatal };
        }
        i += 1;
    }
    Emission { stdout, stderr, fatal: None }
}

/// An input with no more lines than the count is kept whole in line mode.
pub proof fn lemma_few_lines_kept_whole(data: Seq<u8>, count: nat)
    requires
        line_count(data) <= count,
    ensures
        lines_len(data, count) == data.len(),
        line_prefix(data, count) == data,
    decreases data.len(),
{
    if data.len() > 0 {
        let rest = data.skip(1);
        if rest.len() > 0 {
            assert(rest.last() == data.last());
        }
        if data[0] == LINE_FEED {
            lemma_few_lines_kept_whole(rest, (count - 1) as nat);
        } else {
            lemma_few_lines_kept_whole(rest, count);
        }
    }
    assert(data.take(data.len() as int) =~= data);
}

/// In line mode the body of an input with no more lines than the count is
/// the input itself.
pub proof fn lemma_few_lines_body(data: Seq<u8>, count: u64)
    requires
        line_count(data) <= count,
    ensures
        body_of(Limit::Lines(count), data) == data,
{
    lemma_few_lines_kept_whole(data, count as nat);
}

/// In byte mode the body of an input with no more bytes than the count is
/// the lossy decoding of the whole input.
pub proof fn lemma_few_bytes_kept_whole(data: Seq<u8>, count: u64)
    requires
        data.len() <= count,
    ensures
        byte_prefix(data, count as nat) == data,
        body_of(Limit::Bytes(count), data) == encode_utf8(utf8_lossy(data)),
{
    assert(data.take(data.len() as int) =~= data);
}

/// The head in line mode is a prefix of the input, and so is the head in
/// byte mode before it is decoded.
pub proof fn lemma_heads_are_prefixes(data: Seq<u8>, count: nat)
    ensures
        lines_len(data, count) <= data.len(),
        line_prefix(data, count).is_prefix_of(data),
        byte_prefix(data, count).is_prefix_of(data),
        byte_prefix(data, count).len() <= count,
    decreases data.len(),
{
    if count > 0 && data.len() > 0 {
        if data[0] == LINE_FEED {
            lemma_heads_are_prefixes(data.skip(1), (count - 1) as nat);
        } else {
            lemma_heads_are_prefixes(data.skip(1), count);
        }
    }
}

/// The head in line mode is made of whole lines: it holds no more line
/// feeds than the count, and where it stops short of the input's end it
/// holds exactly that many and ends on one.
pub proof fn lemma_line_prefix_is_whole_lines(data: Seq<u8>, count: nat)
    ensures
        line_feeds(line_prefix(data, count)) <= count,
        lines_len(data, count) < data.len() ==> line_feeds(line_prefix(data, count)) == count,
        lines_len(data, count) < data.len() && count > 0 ==> line_prefix(data, count).last()
            == LINE_FEED,
    decreases data.len(),
{
    let head = line_prefix(data, count);
    if count == 0 || data.len() == 0 {
        assert(head.len() == 0);
    } else {
        let rest = data.skip(1);
        let left: nat = if data[0] == LINE_FEED {
            (count - 1) as nat
        } else {
            count
        };
        lemma_line_prefix_is_whole_lines(rest, left);
        lemma_heads_are_prefixes(rest, left);
        let tail = line_prefix(rest, left);
        assert(head.skip(1) =~= tail);
        assert(head[0] == data[0]);
        if tail.len() > 0 {
            assert(head.last() == tail.last());
        }
    }
}

/// The separator is one line feed before every input but the first, and
/// nothing before the first.
pub proof fn lemma_separator_is_one_line_feed(index: int)
    ensures
        index > 0 ==> separator_of(index) == seq![LINE_FEED],
        index <= 0 ==> separator_of(index).len() == 0,
{
    reveal_strlit("\n");
    vstd::utf8::is_ascii_chars_encode_utf8("\n"@);
    assert(encode_utf8("\n"@) =~= seq![LINE_FEED]);
}

/// With one input name no header is printed: an opened input writes its
/// body and nothing else.
pub proof fn lemma_single_input_has_no_header(settings: Settings, source: Source)
    requires
        settings.files.len() == 1,
        source.opened(),
    ensures
        out_of(settings, 0, source) == body_of(settings.limit(), source.data()),
{
    assert(out_of(settings, 0, source) =~= body_of(settings.limit(), source.data()));
}

/// With two or more input names every opened input writes its banner
/// directly before its body, and before the banner one line feed unless it
/// is the first input.
pub proof fn lemma_several_inputs_have_headers(settings: Settings, index: int, source: Source)
    requires
        settings.files.len() >= 2,
        0 <= index < settings.files.len(),
        source.opened(),
    ensures
        index == 0 ==> out_of(settings, index, source) == banner_of(settings.files[index])
            + body_of(settings.limit(), source.data()),
        index > 0 ==> out_of(settings, index, source) == seq![LINE_FEED] + banner_of(
            settings.files[index],
        ) + body_of(settings.limit(), source.data()),
{
    lemma_separator_is_one_line_feed(index);
    if index == 0 {
        assert(out_of(settings, index, source) =~= banner_of(settings.files[index]) + body_of(
            settings.limit(),
            source.data(),
        ));
    }
}

/// An opened input begins with one line feed, and no second one of its own
/// making, unless it is the first input, which begins with none: after it
/// come the header and the body.
pub proof fn lemma_one_separator_before_later_inputs(
    settings: Settings,
    index: int,
    source: Source,
)
    requires
        0 <= index < settings.files.len(),
        source.opened(),
    ensures
        index == 0 ==> out_of(settings, index, source) == header_of(
            settings.files.len() as int,
            settings.files[index],
        ) + body_of(settings.limit(), source.data()),
        index > 0 ==> out_of(settings, index, source) == seq![LINE_FEED] + (header_of(
            settings.files.len() as int,
            settings.files[index],
        ) + body_of(settings.limit(), source.data())),
{
    lemma_separator_is_one_line_feed(index);
    let rest = header_of(settings.files.len() as int, settings.files[index]) + body_of(
        settings.limit(),
        source.data(),
    );
    if index == 0 {
        assert(out_of(settings, index, source) =~= rest);
    } else {
        assert(out_of(settings, index, source) =~= seq![LINE_FEED] + rest);
    }
}

/// An input that could not be opened leaves standard output as it was and
/// adds its diagnostic to standard error; an opened input leaves standard
/// error as it was.
pub proof fn lemma_streams_step(settings: Settings, sources: Seq<Source>, index: int)
    requires
        0 <= index < sources.len(),
    ensures
        !sources[index].opened() ==> stream_out(settings, sources, index + 1) == stream_out(
            settings,
            sources,
            index,
        ),
        sources[index].opened() ==> stream_err(settings, sources, index + 1) == stream_err(
            settings,
            sources,
            index,
        ),
        sources[index] matches Source::Unopened(m) ==> stream_err(settings, sources, index + 1)
            == stream_err(settings, sources, index) + diagnostic_of(settings.files[index], m@),
{
    assert(stream_out(settings, sources, index + 1) =~= stream_out(settings, sources, index)
        + out_of(settings, index, sources[index]));
    assert(stream_err(settings, sources, index + 1) =~= stream_err(settings, sources, index)
        + err_of(settings, index, sources[index]));
    if !sources[index].opened() {
        assert(stream_out(settings, sources, index) + Seq::<u8>::empty() =~= stream_out(
            settings,
            sources,
            index,
        ));
    } else {
        assert(stream_err(settings, sources, index) + Seq::<u8>::empty() =~= stream_err(
            settings,
            sources,
            index,
        ));
    }
}

/// Where no input's reading fails, the run gets through every input and
/// ends without failure: inputs that cannot be opened do not end it.
pub proof fn lemma_no_fault_no_failure(sources: Seq<Source>, from: int)
    requires
        0 <= from <= sources.len(),
        forall|i: int| from <= i < sources.len() ==> (#[trigger] sources[i]).fault().is_none(),
    ensures
        reach_from(sources, from) == sources.len(),
        from == 0 ==> fatal_of(sources).is_none(),
    decreases sources.len() - from,
{
    if from < sources.len() {
        lemma_no_fault_no_failure(sources, from + 1);
    }
}

} // verus!
