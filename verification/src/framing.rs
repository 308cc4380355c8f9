//! Lines over a link that carries only small pieces.
//!
//! A line goes out as its bytes and a line feed, cut into pieces no longer than the link takes.
//! The other side gathers pieces and hands out a line whenever a line feed completes one.
use vstd::prelude::*;
use vstd::slice::slice_subrange;

verus! {

/// Why a session cannot go on.
#[derive(Debug, Clone, Copy, PartialEq, Eq, Structural)]
pub enum FramingError {
    /// A complete line was not UTF-8.
    NotUtf8,
}

/// The bytes of a line on a wire: the text and the line feed that ends it.
pub open spec fn framed(line: Seq<char>) -> Seq<u8> {
    vstd::utf8::encode_utf8(line).push(10)
}

/// The pieces one after the other.
pub open spec fn glued(pieces: Seq<Seq<u8>>) -> Seq<u8>
    decreases pieces.len(),
{
    if pieces.len() == 0 {
        Seq::empty()
    } else {
        glued(pieces.drop_last()) + pieces.last()
    }
}

/// The lines that line feeds have completed in `bytes`, without the line feeds.
pub open spec fn complete(bytes: Seq<u8>) -> Seq<Seq<u8>>
    decreases bytes.len(),
{
    if bytes.len() == 0 {
        Seq::empty()
    } else if bytes.last() == 10 {
        complete(bytes.drop_last()).push(unfinished(bytes.drop_last()))
    } else {
        complete(bytes.drop_last())
    }
}

/// What follows the last line feed in `bytes`.
pub open spec fn unfinished(bytes: Seq<u8>) -> Seq<u8>
    decreases bytes.len(),
{
    if bytes.len() == 0 || bytes.last() == 10 {
        Seq::empty()
    } else {
        unfinished(bytes.drop_last()).push(bytes.last())
    }
}

/// No line feed in it.
pub open spec fn no_line_feed(bytes: Seq<u8>) -> bool {
    forall|i: int| 0 <= i < bytes.len() ==> #[trigger] bytes[i] != 10
}

/// The bytes of each string.
pub open spec fn bytes_of(lines: Seq<String>) -> Seq<Seq<u8>> {
    lines.map_values(|l: String| vstd::utf8::encode_utf8(l@))
}

/// Every one of them is UTF-8.
pub open spec fn all_utf8(lines: Seq<Seq<u8>>) -> bool {
    forall|i: int| 0 <= i < lines.len() ==> vstd::utf8::valid_utf8(#[trigger] lines[i])
}

/// The contents of each piece.
pub open spec fn piece_views(pieces: Seq<Vec<u8>>) -> Seq<Seq<u8>> {
    pieces.map_values(|p: Vec<u8>| p@)
}

/// `String::from_utf8`: the text these bytes encode, if they are UTF-8.
#[verifier::external_body]
fn utf8_text(bytes: Vec<u8>) -> (r: Option<String>)
    ensures
        r is Some <==> vstd::utf8::valid_utf8(bytes@),
        r matches Some(s) ==> vstd::utf8::encode_utf8(s@) == bytes@,
{
    String::from_utf8(bytes).ok()
}

/// The bytes to put on a wire for one line.
pub fn frame(line: &str) -> (r: Vec<u8>)
    ensures
        r@ == framed(line@),
{
    let mut bytes = line.as_bytes_vec();
    bytes.push(10);
    bytes
}

/// Cut one line into pieces of at most `mtu` bytes.
pub fn chunks(line: &str, mtu: usize) -> (r: Vec<Vec<u8>>)
    requires
        mtu > 0,
    ensures
        glued(piece_views(r@)) == framed(line@),
        forall|i: int| 0 <= i < r@.len() ==> 0 < (#[trigger] r@[i])@.len() <= mtu,
        forall|i: int| 0 <= i < r@.len() - 1 ==> (#[trigger] r@[i])@.len() == mtu,
{
    let bytes = frame(line);
    let ghost all = bytes@;
    let mut out: Vec<Vec<u8>> = Vec::new();
    let mut at: usize = 0;
    assert(all.take(0) == Seq::<u8>::empty());
    while at < bytes.len()
        invariant
            mtu > 0,
            bytes@ == all,
            all == framed(line@),
            at <= all.len(),
            glued(piece_views(out@)) == all.take(at as int),
            forall|i: int| 0 <= i < out@.len() ==> 0 < (#[trigger] out@[i])@.len() <= mtu,
            at < all.len() ==> forall|i: int|
                0 <= i < out@.len() ==> (#[trigger] out@[i])@.len() == mtu,
            forall|i: int| 0 <= i < out@.len() - 1 ==> (#[trigger] out@[i])@.len() == mtu,
        decreases all.len() - at,
    {
        let left: usize = bytes.len() - at;
        let n: usize = if left < mtu {
            left
        } else {
            mtu
        };
        let piece = slice_subrange(bytes.as_slice(), at, at + n);
        let piece = slice_to_vec(piece);
        let ghost before = out@;
        out.push(piece);
        assert(piece_views(out@).drop_last() == piece_views(before));
        assert(all.take(at + n) == all.take(at as int) + piece@);
        at = at + n;
    }
    assert(all.take(at as int) == all);
    out
}

fn slice_to_vec(s: &[u8]) -> (r: Vec<u8>)
    ensures
        r@ == s@,
{
    let mut out: Vec<u8> = Vec::new();
    let mut i: usize = 0;
    while i < s.len()
        invariant
            i <= s@.len(),
            out@ == s@.take(i as int),
        decreases s@.len() - i,
    {
        out.push(s[i]);
        i = i + 1;
        assert(out@ == s@.take(i as int));
    }
    assert(s@.take(i as int) == s@);
    out
}

/// Gathers pieces into lines.
#[derive(Debug)]
pub struct Reassembler {
    /// What has arrived since the last line feed.
    pub buffer: Vec<u8>,
}

impl Reassembler {
    /// Nothing complete is kept waiting.
    pub open spec fn wf(&self) -> bool {
        no_line_feed(self.buffer@)
    }

    pub fn new() -> (r: Self)
        ensures
            r.wf(),
            r.buffer@.len() == 0,
    {
        Reassembler { buffer: Vec::new() }
    }

    /// How many bytes of an unfinished line are waiting.
    pub fn pending(&self) -> (r: usize)
        ensures
            r == self.buffer@.len(),
    {
        self.buffer.len()
    }

    /// Take one piece, and hand out the lines it completes.
    pub fn push(&mut self, chunk: &[u8]) -> (r: Result<Vec<String>, FramingError>)
        requires
            old(self).wf(),
        ensures
            final(self).wf(),
            final(self).buffer@ == unfinished(old(self).buffer@ + chunk@),
            r is Ok <==> all_utf8(complete(old(self).buffer@ + chunk@)),
            r matches Ok(lines) ==> bytes_of(lines@) == complete(old(self).buffer@ + chunk@),
            r matches Err(e) ==> e == FramingError::NotUtf8,
    {
        let ghost start = self.buffer@;
        proof {
            a_line_in_progress(start);
        }
        let mut lines: Vec<String> = Vec::new();
        let mut good = true;
        let mut line: Vec<u8> = slice_to_vec(self.buffer.as_slice());
        let mut i: usize = 0;
        assert(start + chunk@.take(0) == start);
        while i < chunk.len()
            invariant
                i <= chunk@.len(),
                start == old(self).buffer@,
                no_line_feed(line@),
                line@ == unfinished(start + chunk@.take(i as int)),
                good == all_utf8(complete(start + chunk@.take(i as int))),
                good ==> bytes_of(lines@) == complete(start + chunk@.take(i as int)),
            decreases chunk@.len() - i,
        {
            let ghost sofar = start + chunk@.take(i as int);
            let byte = chunk[i];
            i = i + 1;
            assert(start + chunk@.take(i as int) == sofar.push(byte));
            assert(sofar.push(byte).drop_last() == sofar);
            if byte == 10 {
                let ghost whole = complete(sofar);
                let ghost bytes = line@;
                assert(complete(sofar.push(byte)) == whole.push(bytes));
                let finished = line;
                line = Vec::new();
                assert(line@ == unfinished(sofar.push(byte)));
                match utf8_text(finished) {
                    Some(text) => {
                        let ghost before = lines@;
                        lines.push(text);
                        assert(bytes_of(lines@) == bytes_of(before).push(bytes));
                        assert(all_utf8(whole.push(bytes)) == all_utf8(whole)) by {
                            if all_utf8(whole.push(bytes)) {
                                assert forall|k: int| 0 <= k < whole.len() implies
                                    vstd::utf8::valid_utf8(#[trigger] whole[k]) by {
                                    assert(whole.push(bytes)[k] == whole[k]);
                                }
                            }
                        }
                    },
                    None => {
                        assert(whole.push(bytes)[whole.len() as int] == bytes);
                        good = false;
                    },
                }
            } else {
                line.push(byte);
            }
        }
        assert(chunk@.take(i as int) == chunk@);
        self.buffer = line;
        if good {
            Ok(lines)
        } else {
            Err(FramingError::NotUtf8)
        }
    }
}

// ── what framing keeps ───────────────────────────────────────────────────────

/// Without a line feed nothing is complete.
pub proof fn a_line_in_progress(bytes: Seq<u8>)
    requires
        no_line_feed(bytes),
    ensures
        complete(bytes).len() == 0,
        unfinished(bytes) == bytes,
    decreases bytes.len(),
{
    if bytes.len() > 0 {
        assert(bytes.last() != 10);
        let rest = bytes.drop_last();
        assert forall|i: int| 0 <= i < rest.len() implies #[trigger] rest[i] != 10 by {
            assert(rest[i] == bytes[i]);
        }
        a_line_in_progress(rest);
        assert(rest.push(bytes.last()) == bytes);
    }
}

/// Where the bytes were cut makes no difference: what `a` left unfinished goes on with `b`.
pub proof fn cuts_make_no_difference(a: Seq<u8>, b: Seq<u8>)
    ensures
        complete(a + b) == complete(a) + complete(unfinished(a) + b),
        unfinished(a + b) == unfinished(unfinished(a) + b),
    decreases b.len(),
{
    let u = unfinished(a);
    what_is_unfinished_has_no_line_feed(a);
    if b.len() == 0 {
        assert(a + b == a);
        assert(u + b == u);
        a_line_in_progress(u);
        assert(complete(a) + complete(u) == complete(a));
    } else {
        let rest = b.drop_last();
        cuts_make_no_difference(a, rest);
        assert((a + b).drop_last() == a + rest);
        assert((u + b).drop_last() == u + rest);
        assert((a + b).last() == b.last());
        assert((u + b).last() == b.last());
        if b.last() == 10 {
            assert(complete(a + b) == complete(a) + complete(u + b));
        }
    }
}

/// What follows the last line feed has none.
pub proof fn what_is_unfinished_has_no_line_feed(bytes: Seq<u8>)
    ensures
        no_line_feed(unfinished(bytes)),
    decreases bytes.len(),
{
    if bytes.len() > 0 && bytes.last() != 10 {
        what_is_unfinished_has_no_line_feed(bytes.drop_last());
    }
}

/// The lines handed out over several pushes, in order, starting with nothing waiting.
pub open spec fn handed_out(pieces: Seq<Seq<u8>>) -> Seq<Seq<u8>>
    decreases pieces.len(),
{
    if pieces.len() == 0 {
        Seq::empty()
    } else {
        handed_out(pieces.drop_last()) + complete(waiting(pieces.drop_last()) + pieces.last())
    }
}

/// What waits in the buffer after several pushes, starting with nothing waiting.
pub open spec fn waiting(pieces: Seq<Seq<u8>>) -> Seq<u8>
    decreases pieces.len(),
{
    if pieces.len() == 0 {
        Seq::empty()
    } else {
        unfinished(waiting(pieces.drop_last()) + pieces.last())
    }
}

/// Pushing pieces one by one hands out the lines of all the bytes together.
pub proof fn pieces_give_the_lines_of_the_whole(pieces: Seq<Seq<u8>>)
    ensures
        handed_out(pieces) == complete(glued(pieces)),
        waiting(pieces) == unfinished(glued(pieces)),
    decreases pieces.len(),
{
    if pieces.len() > 0 {
        let rest = pieces.drop_last();
        pieces_give_the_lines_of_the_whole(rest);
        cuts_make_no_difference(glued(rest), pieces.last());
    }
}

proof fn no_byte_of_another_char_is_a_line_feed(c: char)
    requires
        c != '\n',
    ensures
        no_line_feed(vstd::utf8::encode_scalar(c as u32)),
{
    let v = c as u32;
    assert(v != 10);
    assert(v <= 0x7F && v != 10 ==> (v & 0x7F) as u8 != 10) by (bit_vector);
    assert((0xC0u8 | ((v >> 6) & 0x1F) as u8) != 10) by (bit_vector);
    assert((0xE0u8 | ((v >> 12) & 0x0F) as u8) != 10) by (bit_vector);
    assert((0xF0u8 | ((v >> 18) & 0x7) as u8) != 10) by (bit_vector);
    assert((0x80u8 | (v & 0x3F) as u8) != 10) by (bit_vector);
    assert((0x80u8 | ((v >> 6) & 0x3F) as u8) != 10) by (bit_vector);
    assert((0x80u8 | ((v >> 12) & 0x3F) as u8) != 10) by (bit_vector);
}

/// The encoding of a text has a line feed only where the text does.
proof fn line_feeds_are_the_texts_own(line: Seq<char>)
    requires
        !line.contains('\n'),
    ensures
        no_line_feed(vstd::utf8::encode_utf8(line)),
    decreases line.len(),
{
    if line.len() > 0 {
        let rest = line.drop_first();
        assert forall|i: int| 0 <= i < rest.len() implies rest[i] != '\n' by {
            assert(rest[i] == line[i + 1]);
        }
        line_feeds_are_the_texts_own(rest);
        assert(line[0] != '\n');
        no_byte_of_another_char_is_a_line_feed(line[0]);
    }
}

/// A line without line feeds in it, cut into any pieces that together are its frame, arrives
/// whole: exactly that line is handed out, and nothing is left waiting.
pub proof fn a_line_arrives_whole(line: Seq<char>, pieces: Seq<Seq<u8>>)
    requires
        !line.contains('\n'),
        glued(pieces) == framed(line),
    ensures
        handed_out(pieces) == seq![vstd::utf8::encode_utf8(line)],
        waiting(pieces).len() == 0,
{
    let bytes = vstd::utf8::encode_utf8(line);
    pieces_give_the_lines_of_the_whole(pieces);
    line_feeds_are_the_texts_own(line);
    a_line_in_progress(bytes);
    assert(framed(line).drop_last() == bytes);
    assert(complete(framed(line)) == seq![bytes]);
}

/// Pieces and pieces are glued as one run, and one piece is itself.
pub proof fn gluing_keeps_the_order(a: Seq<Seq<u8>>, b: Seq<Seq<u8>>, piece: Seq<u8>)
    ensures
        glued(a + b) == glued(a) + glued(b),
        glued(a.push(piece)) == glued(a) + piece,
        glued(seq![piece]) == piece,
    decreases b.len(),
{
    assert(a.push(piece).drop_last() == a);
    assert(seq![piece].drop_last() == Seq::<Seq<u8>>::empty());
    assert(glued(Seq::<Seq<u8>>::empty()) + piece == piece);
    if b.len() == 0 {
        assert(a + b == a);
    } else {
        gluing_keeps_the_order(a, b.drop_last(), piece);
        assert((a + b).drop_last() == a + b.drop_last());
        assert((a + b).last() == b.last());
    }
}

/// Cutting bytes into lines loses none of them: the complete lines, each with its line feed, and
/// what is unfinished are the bytes. No line has a line feed in it.
pub proof fn lines_lose_nothing(bytes: Seq<u8>)
    ensures
        glued(complete(bytes).map_values(|line: Seq<u8>| line.push(10))) + unfinished(bytes)
            == bytes,
        forall|i: int|
            0 <= i < complete(bytes).len() ==> no_line_feed(#[trigger] complete(bytes)[i]),
        no_line_feed(unfinished(bytes)),
    decreases bytes.len(),
{
    what_is_unfinished_has_no_line_feed(bytes);
    if bytes.len() > 0 {
        let rest = bytes.drop_last();
        lines_lose_nothing(rest);
        let before = complete(rest).map_values(|line: Seq<u8>| line.push(10));
        let after = complete(bytes).map_values(|line: Seq<u8>| line.push(10));
        if bytes.last() == 10 {
            what_is_unfinished_has_no_line_feed(rest);
            assert(after =~= before.push(unfinished(rest).push(10)));
            gluing_keeps_the_order(before, Seq::empty(), unfinished(rest).push(10));
            assert(glued(before) + unfinished(rest).push(10) =~= (glued(before) + unfinished(
                rest,
            )).push(10));
            assert(rest.push(10) =~= bytes);
        } else {
            assert(glued(before) + unfinished(rest).push(bytes.last()) =~= (glued(before)
                + unfinished(rest)).push(bytes.last()));
            assert(rest.push(bytes.last()) =~= bytes);
        }
    }
}

/// Lines are UTF-8 exactly when each of them is.
pub proof fn one_bad_line_is_enough(lines: Seq<Seq<u8>>, line: Seq<u8>)
    ensures
        all_utf8(Seq::empty()),
        all_utf8(lines.push(line)) <==> all_utf8(lines) && vstd::utf8::valid_utf8(line),
{
    let all = lines.push(line);
    if all_utf8(all) {
        assert(vstd::utf8::valid_utf8(all[lines.len() as int]));
        assert forall|i: int| 0 <= i < lines.len() implies vstd::utf8::valid_utf8(
            #[trigger] lines[i],
        ) by {
            assert(vstd::utf8::valid_utf8(all[i]));
        }
    }
}

/// Every line and every piece is seen, in order.
pub proof fn every_line_is_seen(lines: Seq<String>, pieces: Seq<Vec<u8>>, i: int)
    ensures
        bytes_of(lines).len() == lines.len(),
        piece_views(pieces).len() == pieces.len(),
        0 <= i < lines.len() ==> bytes_of(lines)[i] == vstd::utf8::encode_utf8(lines[i]@),
        0 <= i < pieces.len() ==> piece_views(pieces)[i] == pieces[i]@,
{
}

} // verus!
