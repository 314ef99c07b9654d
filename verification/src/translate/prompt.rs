//! The client's prompts as pi takes them: one text, and images.

use crate::pi::rpc::ImageContent;
use crate::text;
use vstd::prelude::*;
use vstd::string::*;
use vstd::utf8::*;

verus! {

/// What a resource holds.
#[derive(Debug)]
pub enum ResourceContents {
    /// A text.
    Text {
        /// Where it is from.
        uri: String,
        /// Its type.
        mime_type: Option<String>,
        /// The text.
        text: String,
    },
    /// Bytes, in base 64.
    Blob {
        /// Where they are from.
        uri: String,
        /// Their type.
        mime_type: Option<String>,
        /// The bytes.
        blob: String,
    },
    /// Something else.
    Other,
}

/// A part of a prompt.
#[derive(Debug)]
pub enum ContentBlock {
    /// A text.
    Text(String),
    /// A hint at a resource.
    ResourceLink {
        /// Where it is.
        uri: String,
    },
    /// An image, in base 64.
    Image {
        /// Its bytes.
        data: String,
        /// Its type.
        mime_type: String,
    },
    /// A sound, in base 64.
    Audio {
        /// Its bytes.
        data: String,
        /// Its type.
        mime_type: String,
    },
    /// A resource.
    Resource(ResourceContents),
    /// Something else.
    Other,
}

/// An image for pi.
#[derive(Debug, PartialEq, Eq)]
pub struct PiImage {
    /// Its type.
    pub mime_type: String,
    /// Its bytes, in base 64.
    pub data: String,
}

/// A prompt for pi.
#[derive(Debug)]
pub struct PiPrompt {
    /// The text.
    pub message: String,
    /// The images.
    pub images: Vec<PiImage>,
}

/// The models of images: their bytes and their type.
pub open spec fn pi_image_views(v: Seq<PiImage>) -> Seq<(Seq<char>, Seq<char>)> {
    v.map_values(|i: PiImage| (i.data@, i.mime_type@))
}

// ---------------------------------------------------------------------------
// Sizes
// ---------------------------------------------------------------------------

/// Whether a byte carries bits of a base-64 text: it is no padding and no white
/// space.
pub open spec fn carries(b: u8) -> bool {
    b != 0x3d && b != 0x20 && b != 0x09 && b != 0x0a && b != 0x0c && b != 0x0d
}

/// How many bytes carry bits.
pub open spec fn carrying(bytes: Seq<u8>) -> nat
    decreases bytes.len(),
{
    if bytes.len() == 0 {
        0
    } else {
        carrying(bytes.drop_last()) + if carries(bytes.last()) {
            1nat
        } else {
            0nat
        }
    }
}

/// How many bytes a base-64 text stands for.
pub open spec fn decoded_size(s: Seq<char>) -> nat {
    let n = carrying(encode_utf8(s));
    (n / 4) * 3 + if n % 4 == 2 {
        1nat
    } else if n % 4 == 3 {
        2nat
    } else {
        0nat
    }
}

/// How many bytes a base-64 text stands for.
pub fn base64_decoded_len(data: &str) -> (r: usize)
    ensures
        r == decoded_size(data@),
{
    let bytes = data.as_bytes();
    let ghost model = encode_utf8(data@);
    let mut n: usize = 0;
    let mut i: usize = 0;
    assert(model.take(0) =~= Seq::empty());
    while i < bytes.len()
        invariant
            i <= bytes@.len(),
            bytes@ == model,
            n <= i,
            n == carrying(model.take(i as int)),
        decreases bytes.len() - i,
    {
        proof {
            assert(model.take(i + 1).drop_last() =~= model.take(i as int));
            assert(model.take(i + 1).last() == bytes@[i as int]);
        }
        let b: u8 = bytes[i];
        if b != 0x3d && b != 0x20 && b != 0x09 && b != 0x0a && b != 0x0c && b != 0x0d {
            n += 1;
        }
        i += 1;
    }
    assert(model.take(i as int) =~= model);
    (n / 4) * 3 + (if n % 4 == 2 {
        1
    } else if n % 4 == 3 {
        2
    } else {
        0
    })
}

// ---------------------------------------------------------------------------
// Prompts
// ---------------------------------------------------------------------------

/// The type of something, unless it says another.
pub open spec fn type_or(mime_type: Option<String>, default: Seq<char>) -> Seq<char> {
    match mime_type {
        Some(m) => m@,
        None => default,
    }
}

/// What a part adds to the text of a prompt.
pub open spec fn block_text(b: ContentBlock) -> Seq<char> {
    match b {
        ContentBlock::Text(t) => t@,
        ContentBlock::ResourceLink { uri } => "\n[Context] "@ + uri@,
        ContentBlock::Image { .. } => Seq::empty(),
        ContentBlock::Resource(ResourceContents::Text { uri, mime_type, text }) =>
            "\n[Embedded Context] "@ + uri@ + " ("@ + type_or(mime_type, "text/plain"@) + ")\n"@
            + text@,
        ContentBlock::Resource(ResourceContents::Blob { uri, mime_type, blob }) =>
            "\n[Embedded Context] "@ + uri@ + " ("@ + type_or(
            mime_type,
            "application/octet-stream"@,
        ) + ", "@ + text::decimal(decoded_size(blob@)) + " bytes)"@,
        ContentBlock::Resource(ResourceContents::Other) => Seq::empty(),
        ContentBlock::Audio { data, mime_type } => "\n[Audio] ("@ + mime_type@ + ", "@
            + text::decimal(decoded_size(data@)) + " bytes) not supported by pi-acp"@,
        ContentBlock::Other => Seq::empty(),
    }
}

/// The text of a prompt.
pub open spec fn prompt_text(blocks: Seq<ContentBlock>) -> Seq<char>
    decreases blocks.len(),
{
    if blocks.len() == 0 {
        Seq::empty()
    } else {
        prompt_text(blocks.drop_last()) + block_text(blocks.last())
    }
}

/// The images of a prompt.
pub open spec fn prompt_images(blocks: Seq<ContentBlock>) -> Seq<(Seq<char>, Seq<char>)>
    decreases blocks.len(),
{
    if blocks.len() == 0 {
        Seq::empty()
    } else {
        let before = prompt_images(blocks.drop_last());
        match blocks.last() {
            ContentBlock::Image { data, mime_type } => before.push((data@, mime_type@)),
            _ => before,
        }
    }
}

fn mime_or<'a>(mime_type: &'a Option<String>, default: &'a str) -> (r: &'a str)
    ensures
        r@ == type_or(*mime_type, default@),
{
    match mime_type {
        Some(m) => m.as_str(),
        None => default,
    }
}

fn append_block(message: &mut String, b: &ContentBlock)
    ensures
        final(message)@ == old(message)@ + block_text(*b),
{
    let ghost before = message@;
    match b {
        ContentBlock::Text(t) => {
            message.append(t.as_str());
        },
        ContentBlock::ResourceLink { uri } => {
            let t = text::cat2("\n[Context] ", uri.as_str());
            message.append(t.as_str());
        },
        ContentBlock::Resource(ResourceContents::Text { uri, mime_type, text }) => {
            let mime = mime_or(mime_type, "text/plain");
            let head = text::cat5("\n[Embedded Context] ", uri.as_str(), " (", mime, ")\n");
            let t = text::cat2(head.as_str(), text.as_str());
            message.append(t.as_str());
        },
        ContentBlock::Resource(ResourceContents::Blob { uri, mime_type, blob }) => {
            let mime = mime_or(mime_type, "application/octet-stream");
            let size = text::decimal_text(base64_decoded_len(blob.as_str()) as u64);
            let head = text::cat4("\n[Embedded Context] ", uri.as_str(), " (", mime);
            let t = text::cat4(head.as_str(), ", ", size.as_str(), " bytes)");
            message.append(t.as_str());
        },
        ContentBlock::Audio { data, mime_type } => {
            let size = text::decimal_text(base64_decoded_len(data.as_str()) as u64);
            let t = text::cat5(
                "\n[Audio] (",
                mime_type.as_str(),
                ", ",
                size.as_str(),
                " bytes) not supported by pi-acp",
            );
            message.append(t.as_str());
        },
        ContentBlock::Image { .. } => {
            assert(before + Seq::<char>::empty() =~= before);
        },
        ContentBlock::Resource(ResourceContents::Other) => {
            assert(before + Seq::<char>::empty() =~= before);
        },
        ContentBlock::Other => {
            assert(before + Seq::<char>::empty() =~= before);
        },
    }
}

/// Make a prompt for pi of the client's: texts are joined, images are kept
/// apart, and what pi does not take is mentioned in the text.
pub fn prompt_to_pi_message(blocks: &Vec<ContentBlock>) -> (r: PiPrompt)
    ensures
        r.message@ == prompt_text(blocks@),
        pi_image_views(r.images@) == prompt_images(blocks@),
{
    let mut message = String::new();
    let mut images: Vec<PiImage> = Vec::new();
    let mut i: usize = 0;
    assert(blocks@.take(0) =~= Seq::empty());
    assert(pi_image_views(images@) =~= Seq::empty());
    while i < blocks.len()
        invariant
            i <= blocks@.len(),
            message@ == prompt_text(blocks@.take(i as int)),
            pi_image_views(images@) == prompt_images(blocks@.take(i as int)),
        decreases blocks.len() - i,
    {
        proof {
            assert(blocks@.take(i + 1).drop_last() =~= blocks@.take(i as int));
            assert(blocks@.take(i + 1).last() == blocks@[i as int]);
        }
        append_block(&mut message, &blocks[i]);
        if let ContentBlock::Image { data, mime_type } = &blocks[i] {
            let image = PiImage { mime_type: mime_type.clone(), data: data.clone() };
            let ghost before = pi_image_views(images@);
            images.push(image);
            assert(pi_image_views(images@) =~= before.push((image.data@, image.mime_type@)));
        }
        i += 1;
    }
    assert(blocks@.take(i as int) =~= blocks@);
    PiPrompt { message, images }
}

/// The images of a prompt, as pi's commands carry them.
pub fn to_pi_images(images: &Vec<PiImage>) -> (r: Option<Vec<ImageContent>>)
    ensures
        match r {
            Some(v) => images@.len() > 0 && crate::pi::rpc::image_views(v@) == pi_image_views(
                images@,
            ),
            None => images@.len() == 0,
        },
{
    if images.len() == 0 {
        return None;
    }
    let mut r: Vec<ImageContent> = Vec::new();
    let mut i: usize = 0;
    while i < images.len()
        invariant
            i <= images@.len(),
            r@.len() == i,
            forall|k: int|
                0 <= k < i ==> (#[trigger] r@[k]).data@ == images@[k].data@ && r@[k].mime_type@
                    == images@[k].mime_type@,
        decreases images.len() - i,
    {
        r.push(
            ImageContent { data: images[i].data.clone(), mime_type: images[i].mime_type.clone() },
        );
        i += 1;
    }
    assert(crate::pi::rpc::image_views(r@) =~= pi_image_views(images@));
    Some(r)
}

/// Texts are kept word for word: a prompt of texts is their sequence.
pub proof fn texts_are_kept(blocks: Seq<ContentBlock>, more: Seq<ContentBlock>)
    ensures
        prompt_text(blocks + more) == prompt_text(blocks) + prompt_text(more),
        prompt_images(blocks + more) == prompt_images(blocks) + prompt_images(more),
    decreases more.len(),
{
    if more.len() == 0 {
        assert(blocks + more =~= blocks);
        assert(prompt_text(blocks) + prompt_text(more) =~= prompt_text(blocks));
        assert(prompt_images(blocks) + prompt_images(more) =~= prompt_images(blocks));
    } else {
        texts_are_kept(blocks, more.drop_last());
        assert((blocks + more).drop_last() =~= blocks + more.drop_last());
        assert(prompt_text(blocks + more) =~= prompt_text(blocks) + prompt_text(more));
        assert(prompt_images(blocks + more) =~= prompt_images(blocks) + prompt_images(more));
    }
}

// ---------------------------------------------------------------------------
// What each part contributes
// ---------------------------------------------------------------------------

proof fn alone_is_its_part(b: ContentBlock)
    ensures
        prompt_text(seq![b]) == block_text(b),
        prompt_images(seq![b]) == (match b {
            ContentBlock::Image { data, mime_type } => seq![(data@, mime_type@)],
            _ => Seq::empty(),
        }),
{
    reveal_with_fuel(prompt_text, 2);
    reveal_with_fuel(prompt_images, 2);
    let bs = seq![b];
    assert(bs.drop_last() =~= Seq::<ContentBlock>::empty());
    assert(prompt_text(bs) =~= block_text(b));
    assert(prompt_images(bs) =~= (match b {
        ContentBlock::Image { data, mime_type } => seq![(data@, mime_type@)],
        _ => Seq::empty(),
    }));
}

/// A prompt of one text is that text, word for word, without images.
pub proof fn a_text_is_its_own_prompt(t: String)
    ensures
        prompt_text(seq![ContentBlock::Text(t)]) == t@,
        prompt_images(seq![ContentBlock::Text(t)]).len() == 0,
{
    alone_is_its_part(ContentBlock::Text(t));
}

/// The texts of a prompt one behind the other.
pub open spec fn run_together(texts: Seq<Seq<char>>) -> Seq<char>
    decreases texts.len(),
{
    if texts.len() == 0 {
        Seq::empty()
    } else {
        texts[0] + run_together(texts.skip(1))
    }
}

/// A prompt of texts is the texts one behind the other, with nothing left out
/// and nothing between them.
pub proof fn texts_run_together(blocks: Seq<ContentBlock>, texts: Seq<Seq<char>>)
    requires
        blocks.len() == texts.len(),
        forall|k: int|
            0 <= k < blocks.len() ==> (#[trigger] blocks[k] matches ContentBlock::Text(t) && t@
                == texts[k]),
    ensures
        prompt_text(blocks) == run_together(texts),
        prompt_images(blocks).len() == 0,
    decreases blocks.len(),
{
    if blocks.len() > 0 {
        let first = blocks[0];
        let rest = blocks.skip(1);
        assert forall|k: int| 0 <= k < rest.len() implies (#[trigger] rest[k] matches
            ContentBlock::Text(t) && t@ == texts.skip(1)[k]) by {
            assert(rest[k] == blocks[k + 1]);
        }
        texts_run_together(rest, texts.skip(1));
        assert(blocks =~= seq![first] + rest);
        texts_are_kept(seq![first], rest);
        if let ContentBlock::Text(t) = first {
            a_text_is_its_own_prompt(t);
        }
    }
}

/// An image is handed on with its bytes and its type, and adds no text.
pub proof fn an_image_is_handed_on(data: String, mime_type: String)
    ensures
        prompt_text(seq![ContentBlock::Image { data, mime_type }]).len() == 0,
        prompt_images(seq![ContentBlock::Image { data, mime_type }]) == seq![
            (data@, mime_type@),
        ],
{
    alone_is_its_part(ContentBlock::Image { data, mime_type });
}

/// Images keep their order: the image of a part comes behind those of the
/// parts before it.
pub proof fn images_keep_their_order(
    front: Seq<ContentBlock>,
    data: String,
    mime_type: String,
    rest: Seq<ContentBlock>,
)
    ensures
        prompt_images(front + seq![ContentBlock::Image { data, mime_type }] + rest)
            == prompt_images(front) + seq![(data@, mime_type@)] + prompt_images(rest),
        prompt_text(front + seq![ContentBlock::Image { data, mime_type }] + rest)
            == prompt_text(front) + prompt_text(rest),
{
    let one = seq![ContentBlock::Image { data, mime_type }];
    an_image_is_handed_on(data, mime_type);
    texts_are_kept(front, one);
    texts_are_kept(front + one, rest);
    assert(prompt_text(front) + prompt_text(one) =~= prompt_text(front));
}

/// A link is mentioned by where it leads, on a line of its own.
pub proof fn a_link_is_mentioned(uri: String)
    ensures
        prompt_text(seq![ContentBlock::ResourceLink { uri }]) == "\n[Context] "@ + uri@,
        prompt_images(seq![ContentBlock::ResourceLink { uri }]).len() == 0,
{
    alone_is_its_part(ContentBlock::ResourceLink { uri });
}

/// A text that is embedded is given whole, behind a line that says where it is
/// from and of what type it is.
pub proof fn an_embedded_text_is_given_whole(uri: String, mime_type: Option<String>, t: String)
    ensures
        ({
            let b = ContentBlock::Resource(ResourceContents::Text { uri, mime_type, text: t });
            let named = match mime_type {
                Some(m) => m@,
                None => "text/plain"@,
            };
            &&& prompt_text(seq![b]) == "\n[Embedded Context] "@ + uri@ + " ("@ + named + ")\n"@
                + t@
            &&& prompt_images(seq![b]).len() == 0
        }),
{
    alone_is_its_part(
        ContentBlock::Resource(ResourceContents::Text { uri, mime_type, text: t }),
    );
}

/// Bytes that are embedded, and sounds, are mentioned with their type and their
/// size.
pub proof fn bytes_are_mentioned(
    uri: String,
    mime_type: Option<String>,
    blob: String,
    sound_type: String,
)
    ensures
        ({
            let b = ContentBlock::Resource(ResourceContents::Blob { uri, mime_type, blob });
            let named = match mime_type {
                Some(m) => m@,
                None => "application/octet-stream"@,
            };
            &&& prompt_text(seq![b]) == "\n[Embedded Context] "@ + uri@ + " ("@ + named + ", "@
                + text::decimal(decoded_size(blob@)) + " bytes)"@
            &&& prompt_images(seq![b]).len() == 0
        }),
        ({
            let b = ContentBlock::Audio { data: blob, mime_type: sound_type };
            &&& prompt_text(seq![b]) == "\n[Audio] ("@ + sound_type@ + ", "@ + text::decimal(
                decoded_size(blob@),
            ) + " bytes) not supported by pi-acp"@
            &&& prompt_images(seq![b]).len() == 0
        }),
{
    alone_is_its_part(ContentBlock::Resource(ResourceContents::Blob { uri, mime_type, blob }));
    alone_is_its_part(ContentBlock::Audio { data: blob, mime_type: sound_type });
}

/// A base-64 text of `4 * groups` bytes without padding and white space stands
/// for `3 * groups` bytes, and for as many fewer as it ends with padding.
pub proof fn sizes_follow_base_64(s: Seq<char>, groups: nat, padding: nat)
    requires
        carrying(encode_utf8(s)) + padding == 4 * groups,
        padding <= 2,
    ensures
        decoded_size(s) + padding == 3 * groups,
{
    let n = carrying(encode_utf8(s));
    if padding == 0 {
        assert(n / 4 == groups && n % 4 == 0);
    } else if padding == 1 {
        assert(n / 4 == groups - 1 && n % 4 == 3);
    } else {
        assert(n / 4 == groups - 1 && n % 4 == 2);
    }
}

} // verus!
