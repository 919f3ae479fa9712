//! Formatting of AI-provider responses into typed messages, and the
//! fixed-size chunking of a streamed response.

use vstd::prelude::*;
use crate::output::views_of;
use crate::strutil::{char_is_whitespace, push_char, spec_contains, spec_is_unicode_space, str_contains};

verus! {

/// What a formatted message is.
#[derive(Clone, Copy, Debug, PartialEq, Eq, Structural)]
pub enum MessageType {
    Text,
    Code,
    Error,
    System,
}

/// The flags attached to a formatted message.
#[derive(Clone, Copy, Debug, PartialEq, Eq, Structural)]
pub struct MessageMetadata {
    /// The text holds a fenced code block.
    pub has_code: Option<bool>,
    /// The text's length in characters.
    pub length: Option<usize>,
    /// The message is one chunk of a stream.
    pub streaming: Option<bool>,
    /// The message closes its stream.
    pub is_final: Option<bool>,
}

/// One formatted message handed to the transport.
#[derive(Clone, Debug)]
pub struct FormattedMessage {
    pub text: String,
    pub message_type: MessageType,
    pub metadata: Option<MessageMetadata>,
}

/// The metadata of one streamed chunk.
pub open spec fn spec_stream_metadata(closing: bool) -> MessageMetadata {
    MessageMetadata {
        has_code: None,
        length: None,
        streaming: Some(true),
        is_final: if closing {
            Some(true)
        } else {
            None
        },
    }
}

/// Formats a complete provider response: text holding a fenced code block
/// becomes a `Code` message flagged as such, anything else a `Text` message;
/// either way the metadata records the character length.
pub fn format_ai_response(text: &str) -> (r: FormattedMessage)
    ensures
        r.text@ == text@,
        r.message_type == (if spec_contains(text@, "```"@) {
            MessageType::Code
        } else {
            MessageType::Text
        }),
        r.metadata matches Some(m) && {
            &&& m.has_code == (if spec_contains(text@, "```"@) {
                Some(true)
            } else {
                None::<bool>
            })
            &&& m.length matches Some(l) && l == text@.len()
            &&& m.streaming is None
            &&& m.is_final is None
        },
{
    let length = text.unicode_len();
    if str_contains(text, "```") {
        FormattedMessage {
            text: String::from_str(text),
            message_type: MessageType::Code,
            metadata: Some(
                MessageMetadata {
                    has_code: Some(true),
                    length: Some(length),
                    streaming: None,
                    is_final: None,
                },
            ),
        }
    } else {
        FormattedMessage {
            text: String::from_str(text),
            message_type: MessageType::Text,
            metadata: Some(
                MessageMetadata {
                    has_code: None,
                    length: Some(length),
                    streaming: None,
                    is_final: None,
                },
            ),
        }
    }
}


/// ASCII punctuation: the four printable non-alphanumeric bands.
pub open spec fn spec_is_ascii_punct(c: char) -> bool {
    ('!' <= c && c <= '/') || (':' <= c && c <= '@') || ('[' <= c && c <= '`') || ('{' <= c && c
        <= '~')
}

/// A character that closes a streamed token: whitespace or punctuation.
pub open spec fn spec_is_token_boundary(c: char) -> bool {
    spec_is_unicode_space(c) || spec_is_ascii_punct(c)
}

fn is_token_boundary(c: char) -> (r: bool)
    ensures
        r == spec_is_token_boundary(c),
{
    char_is_whitespace(c) || ('!' <= c && c <= '/') || (':' <= c && c <= '@') || ('[' <= c && c
        <= '`') || ('{' <= c && c <= '~')
}

/// The token pieces of `s` while scanning: every boundary character closes
/// the piece it ends, and a fresh piece is open at the back.
pub open spec fn spec_token_pieces(s: Seq<char>) -> Seq<Seq<char>>
    decreases s.len(),
{
    if s.len() == 0 {
        seq![Seq::empty()]
    } else {
        let rest = spec_token_pieces(s.drop_last());
        let grown = rest.update(rest.len() - 1, rest.last().push(s.last()));
        if spec_is_token_boundary(s.last()) {
            grown.push(Seq::empty())
        } else {
            grown
        }
    }
}

/// The tokens a streamed response is sent as: the closed pieces, plus the
/// open remainder when it is non-empty.
pub open spec fn spec_tokens(s: Seq<char>) -> Seq<Seq<char>> {
    let pieces = spec_token_pieces(s);
    if pieces.last().len() == 0 {
        pieces.drop_last()
    } else {
        pieces
    }
}

/// Unfolds `spec_token_pieces` by one character.
proof fn lemma_token_pieces_step(s: Seq<char>, i: int)
    requires
        0 <= i < s.len(),
    ensures
        ({
            let rest = spec_token_pieces(s.take(i));
            let grown = rest.update(rest.len() - 1, rest.last().push(s[i]));
            spec_token_pieces(s.take(i + 1)) == if spec_is_token_boundary(s[i]) {
                grown.push(Seq::empty())
            } else {
                grown
            }
        }),
{
    assert(s.take(i + 1).drop_last() =~= s.take(i));
    assert(s.take(i + 1).last() == s[i]);
}

/// `spec_token_pieces` never yields an empty piece list.
proof fn lemma_token_pieces_nonempty(s: Seq<char>)
    ensures
        spec_token_pieces(s).len() > 0,
    decreases s.len(),
{
    if s.len() > 0 {
        lemma_token_pieces_nonempty(s.drop_last());
    }
}

/// Cuts a provider response into the tokens it is streamed as: characters
/// accumulate, and each whitespace or punctuation character closes the token
/// it ends; a non-empty tail is sent last.
pub fn split_tokens(text: &str) -> (tokens: Vec<String>)
    ensures
        views_of(tokens@) == spec_tokens(text@),
{
    let len = text.unicode_len();
    let mut tokens: Vec<String> = Vec::new();
    let mut buf = String::new();
    let mut i: usize = 0;
    proof {
        assert(views_of(tokens@) =~= spec_token_pieces(text@.take(0)).drop_last());
    }
    while i < len
        invariant
            len == text@.len(),
            i <= len,
            views_of(tokens@) == spec_token_pieces(text@.take(i as int)).drop_last(),
            buf@ == spec_token_pieces(text@.take(i as int)).last(),
        decreases len - i,
    {
        let c = text.get_char(i);
        proof {
            lemma_token_pieces_step(text@, i as int);
            lemma_token_pieces_nonempty(text@.take(i as int));
        }
        push_char(&mut buf, c);
        if is_token_boundary(c) {
            let ghost before = tokens@;
            let mut done = String::new();
            core::mem::swap(&mut done, &mut buf);
            tokens.push(done);
            proof {
                let rest = spec_token_pieces(text@.take(i as int));
                let pieces = spec_token_pieces(text@.take(i as int + 1));
                assert(pieces.drop_last() =~= rest.update(
                    rest.len() - 1,
                    rest.last().push(text@[i as int]),
                ));
                assert(views_of(tokens@) =~= views_of(before).push(rest.last().push(
                    text@[i as int],
                )));
                assert(views_of(tokens@) =~= pieces.drop_last());
            }
        } else {
            proof {
                let rest = spec_token_pieces(text@.take(i as int));
                let pieces = spec_token_pieces(text@.take(i as int + 1));
                assert(pieces.drop_last() =~= rest.drop_last());
                assert(pieces.last() == rest.last().push(text@[i as int]));
            }
        }
        i = i + 1;
    }
    proof {
        assert(text@.take(len as int) =~= text@);
        lemma_token_pieces_nonempty(text@);
    }
    if !buf.as_str().is_empty() {
        let ghost before = tokens@;
        tokens.push(buf);
        proof {
            let pieces = spec_token_pieces(text@);
            assert(pieces.drop_last().push(pieces.last()) =~= pieces);
            assert(views_of(tokens@) =~= pieces);
        }
    }
    tokens
}

/// Splits a growing response into fixed-size chunks: content accumulates in
/// a buffer, and every full `chunk_size` characters leave it as one streamed
/// `Text` message.
pub struct MessageStream {
    pub buffer: String,
    pub chunk_size: usize,
}

/// The first `n`-character chunks of `s`: everything but the remainder
/// shorter than `n`.
pub open spec fn spec_chunks(s: Seq<char>, n: nat) -> Seq<Seq<char>>
    decreases s.len(),
{
    if n == 0 || s.len() < n {
        Seq::empty()
    } else {
        seq![s.take(n as int)] + spec_chunks(s.skip(n as int), n)
    }
}

/// What stays in the buffer after chunking: the tail shorter than `n`.
pub open spec fn spec_chunk_rest(s: Seq<char>, n: nat) -> Seq<char>
    decreases s.len(),
{
    if n == 0 || s.len() < n {
        s
    } else {
        spec_chunk_rest(s.skip(n as int), n)
    }
}

/// The texts of a list of messages, in order.
pub open spec fn texts_of(ms: Seq<FormattedMessage>) -> Seq<Seq<char>> {
    ms.map_values(|m: FormattedMessage| m.text@)
}

impl MessageStream {
    /// An empty stream cutting chunks of `chunk_size` characters.
    pub fn new(chunk_size: usize) -> (r: MessageStream)
        ensures
            r.buffer@.len() == 0,
            r.chunk_size == chunk_size,
    {
        MessageStream { buffer: String::new(), chunk_size }
    }

    /// Appends `content` to the buffer and hands back one streamed message
    /// per complete chunk, the remainder staying buffered.
    pub fn add_content(&mut self, content: &str) -> (messages: Vec<FormattedMessage>)
        requires
            old(self).chunk_size >= 1,
        ensures
            final(self).chunk_size == old(self).chunk_size,
            final(self).buffer@ == spec_chunk_rest(
                old(self).buffer@ + content@,
                old(self).chunk_size as nat,
            ),
            texts_of(messages@) == spec_chunks(
                old(self).buffer@ + content@,
                old(self).chunk_size as nat,
            ),
            forall|k: int|
                0 <= k < messages@.len() ==> (#[trigger] messages@[k]).message_type
                    == MessageType::Text && messages@[k].metadata == Some(
                    spec_stream_metadata(false),
                ),
    {
        self.buffer.append(content);
        let ghost whole = self.buffer@;
        let ghost n = self.chunk_size as nat;
        let mut messages: Vec<FormattedMessage> = Vec::new();
        proof {
            assert(texts_of(messages@) + spec_chunks(self.buffer@, n) =~= spec_chunks(whole, n));
        }
        while self.buffer.as_str().unicode_len() >= self.chunk_size
            invariant
                self.chunk_size >= 1,
                n == self.chunk_size as nat,
                spec_chunk_rest(whole, n) == spec_chunk_rest(self.buffer@, n),
                texts_of(messages@) + spec_chunks(self.buffer@, n) == spec_chunks(whole, n),
                forall|k: int|
                    0 <= k < messages@.len() ==> (#[trigger] messages@[k]).message_type
                        == MessageType::Text && messages@[k].metadata == Some(
                        spec_stream_metadata(false),
                    ),
            decreases self.buffer@.len(),
        {
            let ghost b = self.buffer@;
            let len = self.buffer.as_str().unicode_len();
            let chunk = String::from_str(self.buffer.as_str().substring_char(0, self.chunk_size));
            let rest = String::from_str(self.buffer.as_str().substring_char(self.chunk_size, len));
            self.buffer = rest;
            let ghost before = messages@;
            messages.push(
                FormattedMessage {
                    text: chunk,
                    message_type: MessageType::Text,
                    metadata: Some(
                        MessageMetadata {
                            has_code: None,
                            length: None,
                            streaming: Some(true),
                            is_final: None,
                        },
                    ),
                },
            );
            proof {
                assert(chunk@ =~= b.take(n as int));
                assert(self.buffer@ =~= b.skip(n as int));
                assert(spec_chunks(b, n) == seq![b.take(n as int)] + spec_chunks(
                    b.skip(n as int),
                    n,
                ));
                assert(spec_chunk_rest(b, n) == spec_chunk_rest(b.skip(n as int), n));
                assert(texts_of(messages@) =~= texts_of(before).push(chunk@));
                assert(texts_of(messages@) + spec_chunks(self.buffer@, n) =~= spec_chunks(
                    whole,
                    n,
                ));
            }
        }
        proof {
            assert(spec_chunks(self.buffer@, n) =~= Seq::<Seq<char>>::empty());
            assert(texts_of(messages@) =~= spec_chunks(whole, n));
        }
        messages
    }

    /// Empties the buffer: its remaining content, if any, leaves as one
    /// closing streamed message.
    pub fn flush(&mut self) -> (r: Option<FormattedMessage>)
        ensures
            final(self).chunk_size == old(self).chunk_size,
            final(self).buffer@.len() == 0,
            old(self).buffer@.len() == 0 <==> r is None,
            r matches Some(m) ==> {
                &&& m.text@ == old(self).buffer@
                &&& m.message_type == MessageType::Text
                &&& m.metadata == Some(spec_stream_metadata(true))
            },
    {
        if self.buffer.as_str().is_empty() {
            return None;
        }
        let mut taken = String::new();
        core::mem::swap(&mut taken, &mut self.buffer);
        Some(
            FormattedMessage {
                text: taken,
                message_type: MessageType::Text,
                metadata: Some(
                    MessageMetadata {
                        has_code: None,
                        length: None,
                        streaming: Some(true),
                        is_final: Some(true),
                    },
                ),
            },
        )
    }
}

} // verus!
