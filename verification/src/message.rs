//! The messages that clients exchange through the server: text, images,
//! files and the signal that a client leaves.

use vstd::prelude::*;
use crate::clock::current_timestamp;
use crate::constants::{FILES_FOLDER, IMAGES_FOLDER};
use crate::text::{
    chars_of, decimal, equals_str, extend_chars, join, push_char, split_chars, split_on, string_of,
    trim, trimmed, views,
};

use image::{DynamicImage, ImageError};

verus! {

#[verifier::external_type_specification]
#[verifier::external_body]
pub struct ExDynamicImage(DynamicImage);

#[verifier::external_type_specification]
#[verifier::external_body]
pub struct ExImageError(ImageError);

/// What a message carries.
#[derive(Debug, Clone)]
pub enum MessageType {
    /// A line of text.
    Text { content: String },
    /// An image with the name it is saved under.
    Image { name: String, content: Vec<u8> },
    /// A file with the name it is saved under.
    File { name: String, content: Vec<u8> },
    /// The sender leaves the chat.
    QuitSignal,
}

/// A message and, once known, the address of the client that sent it.
///
/// The address is kept in its textual form, `ip:port`.
#[derive(Debug, Clone)]
pub struct Message {
    pub type_: MessageType,
    sender: Option<String>,
}

/// Why an operation on a message did not happen.
#[derive(Debug, Clone, Copy, PartialEq, Eq, Structural)]
pub enum MessageError {
    /// The operation does not apply to this kind of message.
    Unsupported,
    /// The content is not in a form the operation can read.
    InvalidData,
    /// The operation failed for another reason.
    Other,
}

/// The eight bytes every PNG file starts with.
pub open spec fn png_signature() -> Seq<u8> {
    seq![137u8, 80u8, 78u8, 71u8, 13u8, 10u8, 26u8, 10u8]
}

/// Whether `image::load_from_memory` accepts `bytes`: their format can be
/// guessed from how they start, and they decode as an image of that format.
pub uninterp spec fn decodes_as_image(bytes: Seq<u8>) -> bool;

/// `image::load_from_memory`: guesses the format of `bytes` and decodes
/// them. The contract claims only that it succeeds exactly on the bytes
/// that `decodes_as_image` holds of, a fixed property of the bytes; the
/// decoded image itself is opaque.
#[verifier::external_body]
fn load_image(bytes: &[u8]) -> (r: Result<DynamicImage, ImageError>)
    ensures
        r is Ok == decodes_as_image(bytes@),
{
    image::load_from_memory(bytes)
}

/// The PNG file that `image` makes of `bytes`: the image they hold, decoded
/// as `load_from_memory` does and written out with `DynamicImage::write_to`
/// in the PNG format. Decoding and encoding are deterministic, so this is a
/// function of the bytes alone.
pub uninterp spec fn png_of(bytes: Seq<u8>) -> Seq<u8>;

/// Whether `image` can write the image that `bytes` hold as PNG
/// (`DynamicImage::write_to` with the PNG format succeeds). It cannot for
/// some pixel formats; like the rest, this depends on the bytes alone.
pub uninterp spec fn png_encodes(bytes: Seq<u8>) -> bool;

/// `image::load_from_memory`, then `DynamicImage::write_to` with the PNG
/// format into an empty in-memory buffer. The contract claims that bytes
/// that do not decode give an error, and that the bytes written are the ones
/// `png_of` names, which start with the PNG signature as the `png` encoder
/// writes it first. It succeeds exactly where the bytes decode and the
/// image can be written as PNG, which `png_encodes` names.
#[verifier::external_body]
fn reencode_png(bytes: &[u8]) -> (r: Result<Vec<u8>, ImageError>)
    ensures
        (r is Ok) <==> (decodes_as_image(bytes@) && png_encodes(bytes@)),
        r matches Ok(png) ==> png@ == png_of(bytes@) && png@.len() >= 8 && png@.take(8)
            == png_signature(),
{
    image::load_from_memory(bytes).and_then(|img| {
        let mut out = std::io::Cursor::new(Vec::new());
        img.write_to(&mut out, image::ImageOutputFormat::Png).map(|_| out.into_inner())
    })
}

/// `content` after `written` is written over it from its first byte on: the
/// written bytes, then whatever of `content` lies beyond them.
pub open spec fn overwritten(content: Seq<u8>, written: Seq<u8>) -> Seq<u8> {
    if written.len() >= content.len() {
        written
    } else {
        written + content.subrange(written.len() as int, content.len() as int)
    }
}

/// Writing at least eight bytes over some content leaves the first eight
/// of them in front.
proof fn lemma_overwritten_prefix(content: Seq<u8>, written: Seq<u8>)
    requires
        written.len() >= 8,
    ensures
        overwritten(content, written).take(8) == written.take(8),
{
    if written.len() < content.len() {
        assert(overwritten(content, written).take(8) =~= written.take(8));
    }
}

/// Writes `written` over `content` from its first byte on, extending it where
/// `written` is longer.
pub fn overwrite_from_start(content: &mut Vec<u8>, written: &[u8])
    ensures
        final(content)@ == overwritten(old(content)@, written@),
{
    let n = written.len();
    for i in 0..n
        invariant
            n == written@.len(),
            content@ == overwritten(old(content)@, written@.take(i as int)),
    {
        if i < content.len() {
            content.set(i, written[i]);
        } else {
            content.push(written[i]);
        }
        assert(content@ =~= overwritten(old(content)@, written@.take(i + 1)));
    }
    assert(written@.take(n as int) == written@);
}

/// Whether `bytes` is an image that `image::load_from_memory` decodes.
pub fn image_decodes(bytes: &[u8]) -> (r: bool)
    ensures
        r == decodes_as_image(bytes@),
{
    load_image(bytes).is_ok()
}

impl Message {
    /// What the message carries.
    pub closed spec fn kind(&self) -> MessageType {
        self.type_
    }

    /// The sender's address, if known.
    pub closed spec fn sender(&self) -> Option<String> {
        self.sender
    }

    /// A message of the given kind whose sender is not known yet.
    pub fn new(type_: MessageType) -> (r: Self)
        ensures
            r.kind() == type_,
            r.sender() is None,
    {
        Message { type_, sender: None }
    }

    /// The signal that the client at `sender` leaves.
    pub fn quit_signal(sender: Option<String>) -> (r: Self)
        ensures
            r.kind() is QuitSignal,
            r.sender() == sender,
    {
        Message { type_: MessageType::QuitSignal, sender }
    }

    /// Whether the message is the signal that its sender leaves.
    pub fn is_quit(&self) -> (r: bool)
        ensures
            r == self.kind() is QuitSignal,
    {
        match self.type_ {
            MessageType::QuitSignal => true,
            _ => false,
        }
    }

    /// Records the address of the client that sends the message.
    pub fn set_sender(&mut self, address: String)
        ensures
            final(self).kind() == old(self).kind(),
            final(self).sender() == Some(address),
    {
        self.sender = Some(address);
    }

    /// The sender's address, if known.
    pub fn get_sender(&self) -> (r: &Option<String>)
        ensures
            *r == self.sender(),
    {
        &self.sender
    }

    /// Whether the sender's address is known.
    pub fn has_sender(&self) -> (r: bool)
        ensures
            r == self.sender() is Some,
    {
        self.sender.is_some()
    }

    /// Whether the message is a text with nothing in it, which a client does
    /// not send.
    pub fn is_empty(&self) -> (r: bool)
        ensures
            r == (self.kind() matches MessageType::Text { content } && content@.len() == 0),
    {
        match &self.type_ {
            MessageType::Text { content } => content.unicode_len() == 0,
            _ => false,
        }
    }

    /// For an image: whether it starts with the PNG signature. Other kinds
    /// of message are not images.
    pub fn is_image_and_png(&self) -> (r: Result<bool, MessageError>)
        requires
            self.kind() matches MessageType::Image { content, .. } ==> content@.len() >= 8,
        ensures
            match self.kind() {
                MessageType::Image { content, .. } => r == Ok::<bool, MessageError>(
                    content@.take(8) == png_signature(),
                ),
                _ => r == Err::<bool, MessageError>(MessageError::Unsupported),
            },
    {
        match &self.type_ {
            MessageType::Image { content, .. } => {
                let signature: [u8; 8] = [137, 80, 78, 71, 13, 10, 26, 10];
                let mut same = true;
                let mut i: usize = 0;
                while i < 8
                    invariant
                        i <= 8,
                        content@.len() >= 8,
                        signature@ == png_signature(),
                        same == (forall|j: int| 0 <= j < i ==> content@[j] == png_signature()[j]),
                    decreases 8 - i,
                {
                    if content[i] != signature[i] {
                        same = false;
                    }
                    i = i + 1;
                }
                if same {
                    assert(content@.take(8) =~= png_signature());
                } else {
                    assert(content@.take(8) != png_signature()) by {
                        let j = choose|j: int| 0 <= j < 8 && content@[j] != png_signature()[j];
                        assert(content@.take(8)[j] != png_signature()[j]);
                    }
                }
                Ok(same)
            },
            _ => Err(MessageError::Unsupported),
        }
    }

    /// Re-encodes an image as PNG, writing the PNG bytes over its content
    /// from the first byte on.
    pub fn convert_image_to_png(&mut self) -> (r: Result<(), MessageError>)
        requires
            old(self).kind() matches MessageType::Image { content, .. } ==> decodes_as_image(
                content@,
            ),
        ensures
            final(self).sender() == old(self).sender(),
            old(self).kind() matches MessageType::Image { content, .. } ==> (r is Ok <==> png_encodes(
                content@,
            )),
            match old(self).kind() {
                MessageType::Image { name, content } => match r {
                    Ok(()) => final(self).kind() matches MessageType::Image {
                        name: new_name,
                        content: new_content,
                    } && new_name == name && new_content@ == overwritten(
                        content@,
                        png_of(content@),
                    ) && new_content@.take(8) == png_signature(),
                    Err(e) => e == MessageError::Other && final(self).kind() == old(self).kind(),
                },
                _ => r == Err::<(), MessageError>(MessageError::Unsupported) && final(self).kind()
                    == old(self).kind(),
            },
    {
        match &mut self.type_ {
            MessageType::Image { content, .. } => {
                match reencode_png(content.as_slice()) {
                    Ok(png) => {
                        let ghost before = content@;
                        overwrite_from_start(content, png.as_slice());
                        proof {
                            lemma_overwritten_prefix(before, png@);
                        }
                        Ok(())
                    },
                    Err(_) => Err(MessageError::Other),
                }
            },
            _ => Err(MessageError::Unsupported),
        }
    }

    /// Converts an image to PNG where its content decodes; `None`, with the
    /// message untouched, where it does not.
    pub fn try_convert_image_to_png(&mut self) -> (r: Option<Result<(), MessageError>>)
        ensures
            r is None <==> (old(self).kind() matches MessageType::Image { content, .. }
                && !decodes_as_image(content@)),
            r is None ==> *final(self) == *old(self),
            r matches Some(res) ==> (old(self).kind() matches MessageType::Image { content, .. } ==> (
            res is Ok <==> png_encodes(content@))),
            r matches Some(res) ==> match old(self).kind() {
                MessageType::Image { name, content } => match res {
                    Ok(()) => final(self).kind() matches MessageType::Image {
                        name: new_name,
                        content: new_content,
                    } && new_name == name && new_content@ == overwritten(
                        content@,
                        png_of(content@),
                    ) && new_content@.take(8) == png_signature(),
                    Err(e) => e == MessageError::Other && final(self).kind() == old(self).kind(),
                },
                _ => res == Err::<(), MessageError>(MessageError::Unsupported)
                    && final(self).kind() == old(self).kind(),
            },
            r is Some ==> final(self).sender() == old(self).sender(),
    {
        let decodable = match &self.type_ {
            MessageType::Image { content, .. } => image_decodes(content.as_slice()),
            _ => true,
        };
        if decodable {
            Some(self.convert_image_to_png())
        } else {
            None
        }
    }
}

/// How a line typed by a user reads as a message.
#[derive(Debug, Clone)]
pub enum Input {
    /// `.quit`: the user leaves.
    Quit,
    /// Anything else: a text message with this content.
    Text(String),
    /// `.file <path>`: send the file at the path.
    File(String),
    /// `.image <path>`: send the image at the path.
    Image(String),
}

/// The concatenation of the pieces from the third one on.
pub open spec fn rest_of(pieces: Seq<Seq<char>>) -> Seq<char> {
    join(pieces.subrange(2, pieces.len() as int), Seq::empty())
}

/// How `value` reads as a message: the line is split at spaces; a first word
/// `.quit` is the signal to leave; a single word is a text; `.file` or
/// `.image` followed by a path sends that file or image; any other line is a
/// text made of the first word, a space, the second word, a space and the
/// remaining words run together.
pub open spec fn input_matches(value: Seq<char>, r: Input) -> bool {
    let pieces = split_on(value, ' ');
    let first = trim(pieces[0]);
    if first == ".quit"@ {
        r is Quit
    } else if pieces.len() == 1 {
        r matches Input::Text(t) && t@ == first
    } else {
        let path = trim(pieces[1]);
        if first == ".file"@ {
            r matches Input::File(p) && p@ == path
        } else if first == ".image"@ {
            r matches Input::Image(p) && p@ == path
        } else {
            r matches Input::Text(t) && t@ == first + seq![' '] + path + seq![' '] + rest_of(
                pieces,
            )
        }
    }
}

/// The total length of the pieces.
pub open spec fn pieces_len(pieces: Seq<Seq<char>>) -> nat
    decreases pieces.len(),
{
    if pieces.len() == 0 {
        0
    } else {
        pieces_len(pieces.drop_last()) + pieces.last().len()
    }
}

/// One more piece after the second adds exactly that piece to the end of
/// the words that are run together.
pub proof fn lemma_rest_of_push(pieces: Seq<Seq<char>>, piece: Seq<char>)
    requires
        pieces.len() >= 2,
    ensures
        rest_of(pieces.push(piece)) == rest_of(pieces) + piece,
{
    let q = pieces.subrange(2, pieces.len() as int);
    let longer = pieces.push(piece).subrange(2, pieces.len() + 1int);
    assert(longer =~= q.push(piece));
    assert(longer.drop_last() =~= q);
    if q.len() == 0 {
        assert(rest_of(pieces) =~= Seq::<char>::empty());
        assert(rest_of(pieces.push(piece)) == piece);
        assert(Seq::<char>::empty() + piece =~= piece);
    } else {
        assert(rest_of(pieces.push(piece)) == join(q, Seq::empty()) + Seq::<char>::empty() + piece);
        assert(join(q, Seq::<char>::empty()) + Seq::<char>::empty() =~= join(q, Seq::<char>::empty()));
    }
}

/// No character of the pieces from the third on is lost when they are run
/// together: the run is as long as all pieces but the first two.
pub proof fn lemma_rest_of_len(pieces: Seq<Seq<char>>)
    requires
        pieces.len() >= 2,
    ensures
        rest_of(pieces).len() + pieces[0].len() + pieces[1].len() == pieces_len(pieces),
    decreases pieces.len(),
{
    if pieces.len() == 2 {
        assert(pieces.subrange(2, 2) =~= Seq::<Seq<char>>::empty());
        assert(pieces.drop_last().drop_last() =~= Seq::<Seq<char>>::empty());
        assert(pieces.drop_last().last() == pieces[0]);
        assert(pieces_len(pieces.drop_last().drop_last()) == 0);
        assert(pieces_len(pieces.drop_last()) == pieces[0].len());
        assert(pieces_len(pieces) == pieces[0].len() + pieces[1].len());
        assert(rest_of(pieces) =~= Seq::<char>::empty());
    } else {
        let shorter = pieces.drop_last();
        lemma_rest_of_len(shorter);
        assert(shorter.push(pieces.last()) =~= pieces);
        lemma_rest_of_push(shorter, pieces.last());
        assert(shorter[0] == pieces[0] && shorter[1] == pieces[1]);
        assert(rest_of(pieces) == rest_of(shorter) + pieces.last());
        assert(pieces_len(pieces) == pieces_len(shorter) + pieces.last().len());
    }
}

/// A typed line of two words or more that is not a command is sent as a
/// text with every word in it: the first word, a space, the second word, a
/// space, then all further words run together, so the text is as long as
/// the trimmed first two words, two spaces and all further words.
pub proof fn lemma_typed_text_keeps_every_word(value: Seq<char>, r: Input)
    requires
        input_matches(value, r),
        split_on(value, ' ').len() >= 2,
        trim(split_on(value, ' ')[0]) != ".quit"@,
        trim(split_on(value, ' ')[0]) != ".file"@,
        trim(split_on(value, ' ')[0]) != ".image"@,
    ensures
        ({
            let pieces = split_on(value, ' ');
            r matches Input::Text(t) && t@.len() == trim(pieces[0]).len() + trim(pieces[1]).len()
                + 2 + pieces_len(pieces) - pieces[0].len() - pieces[1].len()
        }),
{
    lemma_rest_of_len(split_on(value, ' '));
}

/// A typed line whose first word is `.quit` leaves; `.file` or `.image`
/// followed by a second word sends the file or image at that path; a single
/// word is sent as it is, trimmed.
pub proof fn lemma_typed_commands(value: Seq<char>, r: Input)
    requires
        input_matches(value, r),
    ensures
        ({
            let pieces = split_on(value, ' ');
            let first = trim(pieces[0]);
            &&& first == ".quit"@ ==> r is Quit
            &&& first != ".quit"@ && pieces.len() == 1 ==> r == Input::Text(r->Text_0) && r->Text_0@
                == first
            &&& first == ".file"@ && pieces.len() >= 2 ==> r == Input::File(r->File_0)
                && r->File_0@ == trim(pieces[1])
            &&& first == ".image"@ && pieces.len() >= 2 ==> r == Input::Image(r->Image_0)
                && r->Image_0@ == trim(pieces[1])
        }),
{
    reveal_strlit(".quit");
    reveal_strlit(".file");
    reveal_strlit(".image");
    assert(".quit"@.len() == 5 && ".file"@.len() == 5 && ".image"@.len() == 6);
    assert(".quit"@[1] == 'q' && ".file"@[1] == 'f');
    assert(".quit"@ != ".file"@);
    assert(".quit"@ != ".image"@);
    assert(".file"@ != ".image"@);
}

/// Reads a line typed by a user as a message to send.
pub fn classify_input(value: &str) -> (r: Input)
    ensures
        input_matches(value@, r),
{
    let chars = chars_of(value);
    let pieces = split_chars(chars.as_slice(), ' ');
    let first = trimmed(pieces[0].as_slice());
    if equals_str(first.as_slice(), ".quit") {
        return Input::Quit;
    }
    if pieces.len() == 1 {
        return Input::Text(string_of(first.as_slice()));
    }
    let path = trimmed(pieces[1].as_slice());
    if equals_str(first.as_slice(), ".file") {
        return Input::File(string_of(path.as_slice()));
    }
    if equals_str(first.as_slice(), ".image") {
        return Input::Image(string_of(path.as_slice()));
    }
    assert(pieces@.len() >= 2);
    let mut text = first;
    text.push(' ');
    extend_chars(&mut text, path.as_slice());
    text.push(' ');
    let ghost parts = views(pieces@);
    let ghost head = text@;
    let n = pieces.len();
    assert(parts.subrange(2, 2) =~= Seq::<Seq<char>>::empty());
    for i in 2..n
        invariant
            n == pieces@.len(),
            parts == views(pieces@),
            text@ == head + join(parts.subrange(2, i as int), Seq::empty()),
    {
        assert(parts.subrange(2, i + 1).drop_last() =~= parts.subrange(2, i as int));
        extend_chars(&mut text, pieces[i].as_slice());
        assert(text@ =~= head + join(parts.subrange(2, i + 1), Seq::empty()));
    }
    assert(parts == split_on(value@, ' '));
    assert(text@ == head + rest_of(parts));
    assert(head == first@ + seq![' '] + path@ + seq![' ']);
    Input::Text(string_of(text.as_slice()))
}

/// The message a typed line stands for. `read` is the contents of the file
/// the line names, read beforehand, or why it could not be read; it is not
/// looked at where the line names no file. An image is sent under
/// `image_name`, a file under its path.
pub fn message_of(input: Input, read: Result<Vec<u8>, String>, image_name: String) -> (r: Result<
    Message,
    String,
>)
    ensures
        match input {
            Input::Quit => r matches Ok(m) && m.kind() is QuitSignal && m.sender() is None,
            Input::Text(t) => r matches Ok(m) && m.kind() == (MessageType::Text { content: t })
                && m.sender() is None,
            Input::File(path) => match read {
                Ok(c) => r matches Ok(m) && m.kind() == (MessageType::File { name: path, content: c })
                    && m.sender() is None,
                Err(e) => r == Err::<Message, String>(e),
            },
            Input::Image(_) => match read {
                Ok(c) => r matches Ok(m) && m.kind() == (MessageType::Image {
                    name: image_name,
                    content: c,
                }) && m.sender() is None,
                Err(e) => r == Err::<Message, String>(e),
            },
        },
{
    let type_ = match input {
        Input::Quit => MessageType::QuitSignal,
        Input::Text(content) => MessageType::Text { content },
        Input::File(path) => match read {
            Ok(content) => MessageType::File { name: path, content },
            Err(e) => return Err(e),
        },
        Input::Image(_) => match read {
            Ok(content) => MessageType::Image { name: image_name, content },
            Err(e) => return Err(e),
        },
    };
    Ok(Message::new(type_))
}

/// The name an image is saved under: the timestamp when there is one, the
/// path it was read from otherwise; then `.png`.
pub fn image_name(timestamp: Result<String, String>, path: &str) -> (r: String)
    ensures
        r@ == match timestamp {
            Ok(t) => t@,
            Err(_) => path@,
        } + ".png"@,
{
    let mut r = String::new();
    match timestamp {
        Ok(t) => r.append(t.as_str()),
        Err(_) => r.append(path),
    }
    r.append(".png");
    r
}

/// The name a new image is saved under: the current time in milliseconds,
/// or the path it was read from when the clock cannot tell; then `.png`.
pub fn new_image_name(path: &str) -> (r: String)
    ensures
        r@ == path@ + ".png"@ || exists|millis: nat| r@ == decimal(millis) + ".png"@,
{
    image_name(current_timestamp(), path)
}

/// The label of a sender in displayed messages.
pub open spec fn sender_label(sender: Option<String>) -> Seq<char> {
    match sender {
        Some(address) => address@,
        None => "unknown"@,
    }
}

/// How a message is shown to a user.
pub open spec fn displayed(sender: Option<String>, kind: MessageType) -> Seq<char> {
    let prefix = seq!['['] + sender_label(sender) + "]: "@;
    match kind {
        MessageType::Text { content } => prefix + content@,
        MessageType::Image { name, .. } => prefix + "receiving "@ + name@,
        MessageType::File { name, .. } => prefix + "receiving "@ + name@,
        MessageType::QuitSignal => Seq::empty(),
    }
}

/// Where a received message is saved.
pub open spec fn saved_at(kind: MessageType) -> Option<Seq<char>> {
    match kind {
        MessageType::Image { name, .. } => Some("./"@ + IMAGES_FOLDER@ + "/"@ + name@),
        MessageType::File { name, .. } => Some("./"@ + FILES_FOLDER@ + "/"@ + name@),
        _ => None,
    }
}

/// A message other than a leaving signal is shown with its sender first, in
/// brackets: the sender's address whatever the kind of message, or
/// `unknown` when the address is not known; then `]: ` and the text, or
/// `receiving ` and the name of the image or file that arrives.
pub proof fn lemma_display_names_sender(sender: Option<String>, kind: MessageType)
    requires
        !(kind is QuitSignal),
    ensures
        displayed(sender, kind) == seq!['['] + (match sender {
            Some(address) => address@,
            None => "unknown"@,
        }) + "]: "@ + (match kind {
            MessageType::Text { content } => content@,
            MessageType::Image { name, .. } => "receiving "@ + name@,
            MessageType::File { name, .. } => "receiving "@ + name@,
            MessageType::QuitSignal => Seq::empty(),
        }),
        sender matches Some(address) ==> displayed(sender, kind).subrange(1, address@.len() + 1int)
            == address@,
{
    let label = match sender {
        Some(address) => address@,
        None => "unknown"@,
    };
    let body = match kind {
        MessageType::Text { content } => content@,
        MessageType::Image { name, .. } => "receiving "@ + name@,
        MessageType::File { name, .. } => "receiving "@ + name@,
        MessageType::QuitSignal => Seq::empty(),
    };
    assert(displayed(sender, kind) =~= seq!['['] + label + "]: "@ + body);
    if sender is Some {
        assert(displayed(sender, kind).subrange(1, label.len() + 1int) =~= label);
    }
}

impl Message {
    /// The message as shown to a user: the sender in brackets, then the text,
    /// or the name of the image or file that arrives.
    pub fn display(&self) -> (r: String)
        requires
            !(self.kind() is QuitSignal),
        ensures
            r@ == displayed(self.sender(), self.kind()),
    {
        let mut r = String::new();
        push_char(&mut r, '[');
        match &self.sender {
            Some(address) => r.append(address.as_str()),
            None => r.append("unknown"),
        }
        r.append("]: ");
        match &self.type_ {
            MessageType::Text { content } => r.append(content.as_str()),
            MessageType::Image { name, .. } => {
                r.append("receiving ");
                r.append(name.as_str());
            },
            MessageType::File { name, .. } => {
                r.append("receiving ");
                r.append(name.as_str());
            },
            MessageType::QuitSignal => {},
        }
        assert(r@ =~= displayed(self.sender(), self.kind()));
        r
    }

    /// The path a received image or file is saved at, with the bytes to
    /// save there. Text is not saved.
    pub fn save_target(&self) -> (r: Result<(String, &Vec<u8>), MessageError>)
        requires
            !(self.kind() is QuitSignal),
        ensures
            match saved_at(self.kind()) {
                Some(path) => r matches Ok((p, bytes)) && p@ == path && (match self.kind() {
                    MessageType::Image { content, .. } => *bytes == content,
                    MessageType::File { content, .. } => *bytes == content,
                    _ => false,
                }),
                None => r == Err::<(String, &Vec<u8>), MessageError>(MessageError::Unsupported),
            },
    {
        let mut path = String::new();
        path.append("./");
        match &self.type_ {
            MessageType::Image { name, content } => {
                path.append(IMAGES_FOLDER);
                path.append("/");
                path.append(name.as_str());
                Ok((path, content))
            },
            MessageType::File { name, content } => {
                path.append(FILES_FOLDER);
                path.append("/");
                path.append(name.as_str());
                Ok((path, content))
            },
            _ => Err(MessageError::Unsupported),
        }
    }
}

} // verus!
