//! The wire format of the terminal graphics protocol.

use crate::image::DisplayCommand;
use crate::image::TransferCommand;
use base64::Engine;
use vstd::prelude::*;
use vstd::string::StringExecFns;

verus! {

/// The standard base64 encoding, with padding, of a sequence of bytes.
pub uninterp spec fn base64_standard(data: Seq<u8>) -> Seq<char>;

/// Encodes `data` with `base64::Engine::encode` of the engine
/// `base64::engine::general_purpose::STANDARD`. The engine fails where the
/// length of the encoding does not fit in `usize`, which the precondition
/// excludes; otherwise the text returned is the encoding of `data`.
#[verifier::external_body]
fn base64_encode(data: &[u8]) -> (text: String)
    requires
        (data@.len() / 3 + 1) * 4 <= usize::MAX,
    ensures
        text@ == base64_standard(data@),
{
    base64::engine::general_purpose::STANDARD.encode(data)
}

/// The character of a decimal digit.
pub open spec fn digit_char(d: int) -> char {
    if d == 0 {
        '0'
    } else if d == 1 {
        '1'
    } else if d == 2 {
        '2'
    } else if d == 3 {
        '3'
    } else if d == 4 {
        '4'
    } else if d == 5 {
        '5'
    } else if d == 6 {
        '6'
    } else if d == 7 {
        '7'
    } else if d == 8 {
        '8'
    } else {
        '9'
    }
}

/// A number written in decimal, without leading zeros.
pub open spec fn decimal_of(n: nat) -> Seq<char>
    decreases n,
{
    if n < 10 {
        seq![digit_char(n as int)]
    } else {
        decimal_of(n / 10).push(digit_char((n % 10) as int))
    }
}

/// A decimal digit as text.
fn digit(d: usize) -> (text: &'static str)
    requires
        d < 10,
    ensures
        text@ == seq![digit_char(d as int)],
{
    proof {
        reveal_strlit("0");
        reveal_strlit("1");
        reveal_strlit("2");
        reveal_strlit("3");
        reveal_strlit("4");
        reveal_strlit("5");
        reveal_strlit("6");
        reveal_strlit("7");
        reveal_strlit("8");
        reveal_strlit("9");
    }
    let text = if d == 0 {
        "0"
    } else if d == 1 {
        "1"
    } else if d == 2 {
        "2"
    } else if d == 3 {
        "3"
    } else if d == 4 {
        "4"
    } else if d == 5 {
        "5"
    } else if d == 6 {
        "6"
    } else if d == 7 {
        "7"
    } else if d == 8 {
        "8"
    } else {
        "9"
    };
    assert(text@ =~= seq![digit_char(d as int)]);
    text
}

/// Writes a number in decimal.
pub fn decimal(n: usize) -> (text: String)
    ensures
        text@ == decimal_of(n as nat),
    decreases n,
{
    if n < 10 {
        let mut text = String::new();
        text.append(digit(n));
        assert(text@ =~= decimal_of(n as nat));
        text
    } else {
        let mut text = decimal(n / 10);
        text.append(digit(n % 10));
        assert(text@ =~= decimal_of(n as nat));
        text
    }
}

/// The request that removes every image from the screen and from the
/// terminal's memory.
pub open spec fn clear_images_text() -> Seq<char> {
    "\x1B_Ga=d,d=a\x1B\\"@
}

/// The query that a terminal answers with `OK` when it knows the protocol.
pub open spec fn support_query_text() -> Seq<char> {
    "\x1B_Gi=31,s=1,v=1,a=q,t=d,f=24;AAAA\x1B\\"@
}

/// The text of a display request: the cursor is saved and moved to the cell,
/// the image is drawn below the text and below coloured backgrounds without
/// moving the cursor, and the cursor is restored.
pub open spec fn display_text(c: DisplayCommand) -> Seq<char> {
    "\x1B[s\x1B["@ + decimal_of(c.row as nat) + ";"@ + decimal_of(c.col as nat)
        + "H\x1B_Gz=-1073741825,a=p,C=1,i="@ + decimal_of(c.id as nat) + ",x="@ + decimal_of(
        c.crop.0 as nat,
    ) + ",y="@ + decimal_of(c.crop.1 as nat) + ",w="@ + decimal_of(c.crop.2 as nat) + ",h="@
        + decimal_of(c.crop.3 as nat) + ",c="@ + decimal_of(c.cols as nat) + ",r="@ + decimal_of(
        c.rows as nat,
    ) + ";\x1B\\\x1B[u"@
}

/// The text of a transfer request for a bitmap that lies in the file
/// `path`: 32 bits per pixel with alpha channel, 24 without, and the path in
/// base64.
pub open spec fn transfer_text(c: TransferCommand, path: Seq<u8>) -> Seq<char> {
    "\x1B_Gq=2,f="@ + (if c.alpha {
        "32"@
    } else {
        "24"@
    }) + ",i="@ + decimal_of(c.id as nat) + ",s="@ + decimal_of(c.width as nat) + ",v="@
        + decimal_of(c.height as nat) + ",t=t;"@ + base64_standard(path) + "\x1B\\"@
}

/// The text of the request that frees one image.
pub open spec fn deallocate_text(id: usize) -> Seq<char> {
    "\x1B_Ga=d,d=I,i="@ + decimal_of(id as nat) + ";\x1B\\"@
}

/// The name of the file through which image `id` is handed over, below the
/// directory for temporary files.
pub open spec fn temp_file_name_text(software_id: Seq<char>, id: usize) -> Seq<char> {
    "tty-graphics-protocol-"@ + software_id + "-"@ + decimal_of(id as nat)
}

/// The request that removes every image.
pub fn terminal_graphics_clear_images() -> (text: &'static str)
    ensures
        text@ == clear_images_text(),
{
    "\x1B_Ga=d,d=a\x1B\\"
}

/// The query that tests whether the terminal knows the protocol.
pub fn terminal_graphics_test_support() -> (text: &'static str)
    ensures
        text@ == support_query_text(),
{
    "\x1B_Gi=31,s=1,v=1,a=q,t=d,f=24;AAAA\x1B\\"
}

/// Writes the request that frees image `id`.
pub fn terminal_graphics_deallocate_id(id: usize) -> (text: String)
    ensures
        text@ == deallocate_text(id),
{
    let mut text = String::new();
    text.append("\x1B_Ga=d,d=I,i=");
    text.append(decimal(id).as_str());
    text.append(";\x1B\\");
    assert(text@ =~= deallocate_text(id));
    text
}

/// Writes the name of the file through which image `id` is handed over.
pub fn temp_file_name(software_id: &str, id: usize) -> (text: String)
    ensures
        text@ == temp_file_name_text(software_id@, id),
{
    let mut text = String::new();
    text.append("tty-graphics-protocol-");
    text.append(software_id);
    text.append("-");
    text.append(decimal(id).as_str());
    assert(text@ =~= temp_file_name_text(software_id@, id));
    text
}

/// Writes a display request.
pub fn terminal_graphics_display_image(command: &DisplayCommand) -> (text: String)
    ensures
        text@ == display_text(*command),
{
    let mut text = String::new();
    text.append("\x1B[s\x1B[");
    text.append(decimal(command.row).as_str());
    text.append(";");
    text.append(decimal(command.col).as_str());
    text.append("H\x1B_Gz=-1073741825,a=p,C=1,i=");
    text.append(decimal(command.id).as_str());
    text.append(",x=");
    text.append(decimal(command.crop.0).as_str());
    text.append(",y=");
    text.append(decimal(command.crop.1).as_str());
    text.append(",w=");
    text.append(decimal(command.crop.2).as_str());
    text.append(",h=");
    text.append(decimal(command.crop.3).as_str());
    text.append(",c=");
    text.append(decimal(command.cols).as_str());
    text.append(",r=");
    text.append(decimal(command.rows).as_str());
    text.append(";\x1B\\\x1B[u");
    assert(text@ =~= display_text(*command));
    text
}

/// Writes the transfer request for a bitmap that lies in the file `path`:
/// `None` when the path is too long for its base64 form to fit in `usize`.
pub fn terminal_graphics_transfer_bitmap(command: &TransferCommand, path: &[u8]) -> (text: Option<
    String,
>)
    ensures
        text is Some <==> (path@.len() / 3 + 1) * 4 <= usize::MAX,
        text matches Some(t) ==> t@ == transfer_text(*command, path@),
{
    if path.len() / 3 >= usize::MAX / 4 {
        return None;
    }
    let mut text = String::new();
    text.append("\x1B_Gq=2,f=");
    text.append(if command.alpha { "32" } else { "24" });
    text.append(",i=");
    text.append(decimal(command.id).as_str());
    text.append(",s=");
    text.append(decimal(command.width).as_str());
    text.append(",v=");
    text.append(decimal(command.height).as_str());
    text.append(",t=t;");
    text.append(base64_encode(path).as_str());
    text.append("\x1B\\");
    assert(text@ =~= transfer_text(*command, path@));
    Some(text)
}

/// Index of the first `sep` in `bytes` at or after `from`, the length of
/// `bytes` when there is none.
pub open spec fn first_sep(bytes: Seq<u8>, sep: u8, from: int) -> int
    decreases bytes.len() - from,
{
    if from < 0 || from >= bytes.len() {
        bytes.len() as int
    } else if bytes[from] == sep {
        from
    } else {
        first_sep(bytes, sep, from + 1)
    }
}

/// The pieces between the separators of `bytes`: one more than there are
/// separators, empty pieces included.
pub open spec fn pieces(bytes: Seq<u8>, sep: u8) -> Seq<Seq<u8>>
    decreases bytes.len(),
{
    let at = first_sep(bytes, sep, 0);
    if at < 0 || at >= bytes.len() {
        seq![bytes]
    } else {
        seq![bytes.subrange(0, at)] + pieces(bytes.subrange(at + 1, bytes.len() as int), sep)
    }
}

/// The views of the byte strings of a list.
pub open spec fn views(list: Seq<Vec<u8>>) -> Seq<Seq<u8>> {
    Seq::new(list.len(), |i: int| list[i]@)
}

/// Where the first separator of a sequence is, given that `at` is one and
/// nothing before it is.
proof fn lemma_first_sep_is(bytes: Seq<u8>, sep: u8, from: int, at: int)
    requires
        0 <= from <= at <= bytes.len(),
        at < bytes.len() ==> bytes[at] == sep,
        forall|i: int| from <= i < at ==> bytes[i] != sep,
    ensures
        first_sep(bytes, sep, from) == at,
    decreases at - from,
{
    if from < at {
        lemma_first_sep_is(bytes, sep, from + 1, at);
    }
}

/// The first separator of a sequence lies within it or at its end.
pub proof fn lemma_first_sep_bounds(bytes: Seq<u8>, sep: u8, from: int)
    requires
        0 <= from <= bytes.len(),
    ensures
        from <= first_sep(bytes, sep, from) <= bytes.len(),
        first_sep(bytes, sep, from) < bytes.len() ==> bytes[first_sep(bytes, sep, from)] == sep,
        forall|i: int| from <= i < first_sep(bytes, sep, from) ==> bytes[i] != sep,
    decreases bytes.len() - from,
{
    if from < bytes.len() && bytes[from] != sep {
        lemma_first_sep_bounds(bytes, sep, from + 1);
    }
}

/// A sequence is cut into at least one piece.
pub proof fn lemma_pieces_nonempty(bytes: Seq<u8>, sep: u8)
    ensures
        pieces(bytes, sep).len() >= 1,
    decreases bytes.len(),
{
    lemma_first_sep_bounds(bytes, sep, 0);
    let at = first_sep(bytes, sep, 0);
    if at < bytes.len() {
        lemma_pieces_nonempty(bytes.subrange(at + 1, bytes.len() as int), sep);
    }
}

/// A byte that is no separator lengthens the last piece.
pub proof fn lemma_pieces_push(bytes: Seq<u8>, sep: u8, b: u8)
    requires
        b != sep,
    ensures
        pieces(bytes, sep).len() >= 1,
        pieces(bytes.push(b), sep) == pieces(bytes, sep).drop_last().push(
            pieces(bytes, sep).last().push(b),
        ),
    decreases bytes.len(),
{
    lemma_pieces_nonempty(bytes, sep);
    lemma_first_sep_bounds(bytes, sep, 0);
    let at = first_sep(bytes, sep, 0);
    let grown = bytes.push(b);
    if at < bytes.len() {
        let rest = bytes.subrange(at + 1, bytes.len() as int);
        assert forall|i: int| 0 <= i < at implies grown[i] != sep by {
            assert(grown[i] == bytes[i]);
        }
        assert(grown[at] == sep);
        lemma_first_sep_is(grown, sep, 0, at);
        assert(grown.subrange(at + 1, grown.len() as int) =~= rest.push(b));
        assert(grown.subrange(0, at) =~= bytes.subrange(0, at));
        lemma_pieces_push(rest, sep, b);
        lemma_pieces_nonempty(rest, sep);
        let tail = pieces(rest, sep);
        let head = seq![bytes.subrange(0, at)];
        assert((head + tail).drop_last().push((head + tail).last().push(b)) =~= head
            + tail.drop_last().push(tail.last().push(b)));
    } else {
        assert forall|i: int| 0 <= i < grown.len() implies grown[i] != sep by {
            if i < bytes.len() {
                assert(grown[i] == bytes[i]);
            }
        }
        lemma_first_sep_is(grown, sep, 0, grown.len() as int);
        assert(seq![bytes].drop_last().push(seq![bytes].last().push(b)) =~= seq![grown]);
    }
}

/// A separator begins a new, empty piece.
pub proof fn lemma_pieces_push_sep(bytes: Seq<u8>, sep: u8)
    ensures
        pieces(bytes.push(sep), sep) == pieces(bytes, sep).push(Seq::<u8>::empty()),
    decreases bytes.len(),
{
    lemma_first_sep_bounds(bytes, sep, 0);
    let at = first_sep(bytes, sep, 0);
    let grown = bytes.push(sep);
    assert forall|i: int| 0 <= i < at implies grown[i] != sep by {
        assert(grown[i] == bytes[i]);
    }
    if at < bytes.len() {
        let rest = bytes.subrange(at + 1, bytes.len() as int);
        assert(grown[at] == sep);
        lemma_first_sep_is(grown, sep, 0, at);
        assert(grown.subrange(at + 1, grown.len() as int) =~= rest.push(sep));
        assert(grown.subrange(0, at) =~= bytes.subrange(0, at));
        lemma_pieces_push_sep(rest, sep);
        let tail = pieces(rest, sep);
        let head = seq![bytes.subrange(0, at)];
        assert((head + tail).push(Seq::<u8>::empty()) =~= head + tail.push(Seq::<u8>::empty()));
    } else {
        assert(grown[at] == sep);
        lemma_first_sep_is(grown, sep, 0, at);
        let rest = grown.subrange(at + 1, grown.len() as int);
        assert(rest =~= Seq::<u8>::empty());
        assert(grown.subrange(0, at) =~= bytes);
        lemma_first_sep_is(rest, sep, 0, 0);
        assert(pieces(rest, sep) == seq![rest]);
        assert(seq![bytes] + seq![rest] =~= seq![bytes].push(Seq::<u8>::empty()));
    }
}

/// Cuts `bytes` at every `sep`.
pub fn split(bytes: &[u8], sep: u8) -> (parts: Vec<Vec<u8>>)
    ensures
        views(parts@) == pieces(bytes@, sep),
        parts@.len() >= 1,
{
    let mut parts: Vec<Vec<u8>> = Vec::new();
    let mut current: Vec<u8> = Vec::new();
    let mut start: usize = 0;
    let mut i: usize = 0;
    proof {
        assert(bytes@.subrange(0, bytes@.len() as int) =~= bytes@);
        assert(views(parts@) + pieces(bytes@, sep) =~= pieces(bytes@, sep));
    }
    while i < bytes.len()
        invariant
            0 <= start <= i <= bytes@.len(),
            current@ == bytes@.subrange(start as int, i as int),
            forall|k: int| start <= k < i ==> bytes@[k] != sep,
            pieces(bytes@, sep) == views(parts@) + pieces(
                bytes@.subrange(start as int, bytes@.len() as int),
                sep,
            ),
        decreases bytes.len() - i,
    {
        let ghost rest = bytes@.subrange(start as int, bytes@.len() as int);
        if bytes[i] == sep {
            proof {
                assert forall|k: int| 0 <= k < i - start implies rest[k] != sep by {
                    assert(rest[k] == bytes@[start + k]);
                }
                assert(rest[i - start] == bytes@[i as int]);
                lemma_first_sep_is(rest, sep, 0, i - start);
                assert(rest.subrange(0, i - start) =~= current@);
                assert(rest.subrange(i - start + 1, rest.len() as int) =~= bytes@.subrange(
                    i + 1,
                    bytes@.len() as int,
                ));
            }
            let ghost before = views(parts@);
            let ghost piece = current@;
            parts.push(current);
            current = Vec::new();
            start = i + 1;
            proof {
                assert(views(parts@) =~= before + seq![piece]);
                assert(current@ =~= bytes@.subrange(start as int, start as int));
                assert(before + (seq![piece] + pieces(
                    bytes@.subrange(start as int, bytes@.len() as int),
                    sep,
                )) =~= (before + seq![piece]) + pieces(
                    bytes@.subrange(start as int, bytes@.len() as int),
                    sep,
                ));
            }
        } else {
            current.push(bytes[i]);
            proof {
                assert(current@ =~= bytes@.subrange(start as int, i + 1));
            }
        }
        i = i + 1;
    }
    proof {
        let rest = bytes@.subrange(start as int, bytes@.len() as int);
        assert forall|k: int| 0 <= k < rest.len() implies rest[k] != sep by {
            assert(rest[k] == bytes@[start + k]);
        }
        lemma_first_sep_is(rest, sep, 0, rest.len() as int);
        assert(rest =~= current@);
    }
    let ghost before = views(parts@);
    parts.push(current);
    proof {
        assert(views(parts@) =~= before + seq![current@]);
    }
    parts
}

/// Whether `bytes` holds the letters `OK` next to each other.
pub open spec fn holds_ok(bytes: Seq<u8>) -> bool {
    exists|i: int| 0 <= i && i + 1 < bytes.len() && bytes[i] == 79u8 && #[trigger] bytes[i + 1] == 75u8
}

/// Whether the payload of an acknowledgement reports success.
pub fn terminal_graphics_apc_success(payload: &[u8]) -> (ok: bool)
    ensures
        ok == holds_ok(payload@),
{
    if payload.len() < 2 {
        return false;
    }
    let mut i: usize = 0;
    while i < payload.len() - 1
        invariant
            0 <= i,
            i + 1 <= payload@.len(),
            forall|k: int|
                0 <= k < i && k + 1 < payload@.len() ==> !(payload@[k] == 79u8
                    && #[trigger] payload@[k + 1] == 75u8),
        decreases payload.len() - i,
    {
        if payload[i] == 79 && payload[i + 1] == 75 {
            return true;
        }
        i = i + 1;
    }
    false
}

/// An acknowledgement of the terminal, taken apart on demand.
#[derive(Debug)]
pub struct GraphicsResponse {
    source: Vec<u8>,
    loaded: bool,
    control: Vec<(Vec<u8>, Vec<u8>)>,
    payload: Vec<u8>,
}

/// Mathematical content of a [`GraphicsResponse`].
pub struct ResponseView {
    /// The control data: the bytes before the first `;`.
    pub source: Seq<u8>,
    /// The payload: the bytes between the first and the second `;`.
    pub payload: Seq<u8>,
}

/// The payload of a response: its second piece, empty when it has one piece
/// only.
pub open spec fn payload_of(bytes: Seq<u8>) -> Seq<u8> {
    if pieces(bytes, 59u8).len() > 1 {
        pieces(bytes, 59u8)[1]
    } else {
        Seq::empty()
    }
}

/// The keys and values among `items`: of each item that holds exactly one
/// `=`, what stands before it and what stands after it, in the order of the
/// items.
pub open spec fn key_values(items: Seq<Seq<u8>>) -> Seq<(Seq<u8>, Seq<u8>)>
    decreases items.len(),
{
    if items.len() == 0 {
        Seq::empty()
    } else if pieces(items.last(), 61u8).len() == 2 {
        key_values(items.drop_last()).push(
            (pieces(items.last(), 61u8)[0], pieces(items.last(), 61u8)[1]),
        )
    } else {
        key_values(items.drop_last())
    }
}

/// The control data of a response as keys and values: the items between
/// the commas that hold exactly one `=`.
pub open spec fn control_of(source: Seq<u8>) -> Seq<(Seq<u8>, Seq<u8>)> {
    key_values(pieces(source, 44u8))
}

/// The views of a list of pairs of byte strings.
pub open spec fn pair_views(list: Seq<(Vec<u8>, Vec<u8>)>) -> Seq<(Seq<u8>, Seq<u8>)> {
    Seq::new(list.len(), |i: int| (list[i].0@, list[i].1@))
}

impl View for GraphicsResponse {
    type V = ResponseView;

    closed spec fn view(&self) -> ResponseView {
        ResponseView { source: self.source@, payload: self.payload@ }
    }
}

impl GraphicsResponse {
    /// Whether the control data were taken apart already, and correctly.
    pub closed spec fn wf(&self) -> bool {
        self.loaded ==> pair_views(self.control@) == control_of(self.source@)
    }

    /// Takes a response apart at its semicolons: control data, then payload.
    pub fn new(source: &[u8]) -> (response: GraphicsResponse)
        ensures
            response.wf(),
            response@.source == pieces(source@, 59u8)[0],
            response@.payload == payload_of(source@),
    {
        let mut parts = split(source, 59);
        assert(views(parts@)[0] == parts@[0]@);
        let payload = if parts.len() > 1 {
            assert(views(parts@)[1] == parts@[1]@);
            parts.swap_remove(1)
        } else {
            Vec::new()
        };
        let first = parts.swap_remove(0);
        GraphicsResponse { source: first, loaded: false, control: Vec::new(), payload }
    }

    /// Takes the control data apart.
    fn load(&mut self)
        ensures
            final(self)@ == old(self)@,
            final(self).wf(),
            final(self).loaded,
    {
        let items = split(self.source.as_slice(), 44);
        let mut control: Vec<(Vec<u8>, Vec<u8>)> = Vec::new();
        let mut i: usize = 0;
        while i < items.len()
            invariant
                0 <= i <= items.len(),
                pair_views(control@) == key_values(views(items@).take(i as int)),
            decreases items.len() - i,
        {
            let mut halves = split(items[i].as_slice(), 61);
            proof {
                assert(views(items@).take(i + 1).drop_last() =~= views(items@).take(i as int));
                assert(views(items@).take(i + 1).last() == items@[i as int]@);
            }
            if halves.len() == 2 {
                assert(views(halves@)[0] == halves@[0]@);
                assert(views(halves@)[1] == halves@[1]@);
                let ghost before = pair_views(control@);
                let value = halves.swap_remove(1);
                let key = halves.swap_remove(0);
                control.push((key, value));
                assert(pair_views(control@) =~= before.push((key@, value@)));
            }
            i = i + 1;
        }
        proof {
            assert(views(items@).take(items@.len() as int) =~= views(items@));
        }
        self.control = control;
        self.loaded = true;
    }

    /// The keys and values of the control data, in their order.
    pub fn control(&mut self) -> (control: &Vec<(Vec<u8>, Vec<u8>)>)
        requires
            old(self).wf(),
        ensures
            final(self)@ == old(self)@,
            final(self).wf(),
            pair_views(control@) == control_of(old(self)@.source),
    {
        if !self.loaded {
            self.load();
        }
        &self.control
    }

    /// The payload.
    pub fn payload(&self) -> (payload: &[u8])
        ensures
            payload@ == self@.payload,
    {
        self.payload.as_slice()
    }
}

} // verus!
