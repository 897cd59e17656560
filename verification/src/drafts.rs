//! Complete composer drafts: everything that undo has to bring back.

use std::path::PathBuf;

use vstd::prelude::*;

use crate::content::Content;

verus! {

/// `std::path::PathBuf`, the platform's own type of a path. Nothing is claimed of it; its size counts
/// for each image path that a draft keeps alive.
#[verifier::external_type_specification]
#[verifier::external_body]
pub struct ExPathBuf(PathBuf);

/// A range of bytes in the text of a draft.
#[derive(Clone, Copy, Debug, PartialEq, Eq, Structural)]
pub struct ByteRange {
    pub start: usize,
    pub end: usize,
}

/// A part of the draft text that the editor treats as one unit.
#[derive(Clone, Debug, PartialEq, Eq)]
pub struct TextElement {
    pub byte_range: ByteRange,
    /// The label shown for the element; without one it shows the text it covers.
    pub placeholder: Option<String>,
}

/// A mention in the text and the path that it stands for.
#[derive(Clone, Debug, PartialEq, Eq)]
pub struct MentionBinding {
    pub mention: String,
    pub path: String,
}

/// The path of an attached image, in the platform's byte encoding.
#[derive(Clone, Debug, PartialEq, Eq)]
pub struct ImagePath {
    pub encoded: Vec<u8>,
}

/// What a draft holds apart from the cursor.
#[derive(Clone, Debug, PartialEq, Eq)]
pub struct EditableDraftContent {
    pub text: String,
    pub text_elements: Vec<TextElement>,
    pub local_image_paths: Vec<ImagePath>,
    pub remote_image_urls: Vec<String>,
    pub mention_bindings: Vec<MentionBinding>,
    /// Pairs of the placeholder in the text and the pasted text behind it.
    pub pending_pastes: Vec<(String, String)>,
}

/// A draft as the editor can restore it.
#[derive(Clone, Debug, PartialEq, Eq)]
pub struct EditableDraft {
    pub content: EditableDraftContent,
    /// Byte position in the text.
    pub cursor: usize,
}

pub struct TextElementView {
    pub byte_range: ByteRange,
    pub placeholder: Option<Seq<char>>,
}

pub struct MentionBindingView {
    pub mention: Seq<char>,
    pub path: Seq<char>,
}

#[verifier::ext_equal]
pub struct DraftContentView {
    pub text: Seq<char>,
    pub text_elements: Seq<TextElementView>,
    pub local_image_paths: Seq<Seq<u8>>,
    pub remote_image_urls: Seq<Seq<char>>,
    pub mention_bindings: Seq<MentionBindingView>,
    pub pending_pastes: Seq<(Seq<char>, Seq<char>)>,
}

#[verifier::ext_equal]
pub struct DraftView {
    pub content: DraftContentView,
    pub cursor: usize,
}

impl DeepView for TextElement {
    type V = TextElementView;

    open spec fn deep_view(&self) -> TextElementView {
        TextElementView {
            byte_range: self.byte_range,
            placeholder: self.placeholder.deep_view(),
        }
    }
}

impl DeepView for MentionBinding {
    type V = MentionBindingView;

    open spec fn deep_view(&self) -> MentionBindingView {
        MentionBindingView { mention: self.mention@, path: self.path@ }
    }
}

impl DeepView for ImagePath {
    type V = Seq<u8>;

    open spec fn deep_view(&self) -> Seq<u8> {
        self.encoded.deep_view()
    }
}

impl DeepView for EditableDraftContent {
    type V = DraftContentView;

    open spec fn deep_view(&self) -> DraftContentView {
        DraftContentView {
            text: self.text@,
            text_elements: self.text_elements.deep_view(),
            local_image_paths: self.local_image_paths.deep_view(),
            remote_image_urls: self.remote_image_urls.deep_view(),
            mention_bindings: self.mention_bindings.deep_view(),
            pending_pastes: self.pending_pastes.deep_view(),
        }
    }
}

impl DeepView for EditableDraft {
    type V = DraftView;

    open spec fn deep_view(&self) -> DraftView {
        DraftView { content: self.content.deep_view(), cursor: self.cursor }
    }
}

impl View for EditableDraft {
    type V = DraftView;

    open spec fn view(&self) -> DraftView {
        self.deep_view()
    }
}

/// The number of bytes in the UTF-8 encoding of `text`.
pub open spec fn utf8_len(text: Seq<char>) -> nat {
    vstd::utf8::encode_utf8(text).len()
}

/// Whether a byte position of `text` stands between two characters, or at either end.
pub open spec fn is_text_position(text: Seq<char>, position: int) -> bool {
    vstd::utf8::is_char_boundary(vstd::utf8::encode_utf8(text), position)
}

/// The characters in front of a byte position.
pub open spec fn text_before(text: Seq<char>, position: int) -> Seq<char> {
    vstd::utf8::decode_utf8(vstd::utf8::encode_utf8(text).subrange(0, position))
}

/// The characters behind a byte position.
pub open spec fn text_behind(text: Seq<char>, position: int) -> Seq<char> {
    let bytes = vstd::utf8::encode_utf8(text);
    vstd::utf8::decode_utf8(bytes.subrange(position, bytes.len() as int))
}

impl ByteRange {
    pub open spec fn lies_in(self, text: Seq<char>) -> bool {
        &&& self.start <= self.end
        &&& is_text_position(text, self.start as int)
        &&& is_text_position(text, self.end as int)
    }

    /// Where a byte position comes to stand once the bytes of the range are gone.
    pub open spec fn position_after_cut(self, position: usize) -> usize {
        if position <= self.start {
            position
        } else if position <= self.end {
            self.start
        } else {
            (position - (self.end - self.start)) as usize
        }
    }

    /// Where the range comes to stand once the bytes of `cut` are gone.
    pub open spec fn after_cut(self, cut: ByteRange) -> ByteRange {
        ByteRange {
            start: cut.position_after_cut(self.start),
            end: cut.position_after_cut(self.end),
        }
    }

    /// Where the range comes to stand once `bytes` are inserted at `position`. A range that ends
    /// there does not grow.
    pub open spec fn after_insertion(self, position: usize, bytes: nat) -> ByteRange {
        ByteRange {
            start: if self.start < position {
                self.start
            } else {
                crate::numbers::clamped(self.start as nat + bytes) as usize
            },
            end: if self.end <= position {
                self.end
            } else {
                crate::numbers::clamped(self.end as nat + bytes) as usize
            },
        }
    }
}

impl TextElementView {
    /// Whether the element is gone once the bytes of `cut` are.
    pub open spec fn goes_with(self, cut: ByteRange) -> bool {
        cut.start < cut.end && cut.start <= self.byte_range.start && self.byte_range.end <= cut.end
    }

    pub open spec fn after_cut(self, cut: ByteRange) -> Self {
        TextElementView { byte_range: self.byte_range.after_cut(cut), ..self }
    }

    pub open spec fn after_insertion(self, position: usize, bytes: nat) -> Self {
        TextElementView { byte_range: self.byte_range.after_insertion(position, bytes), ..self }
    }

    /// Bytes of the label the element shows in `text`: its own placeholder or, without one, the
    /// bytes it covers, as long as its range lies on character boundaries of the text.
    pub open spec fn placeholder_bytes(self, text: Seq<char>) -> nat {
        match self.placeholder {
            Some(label) => utf8_len(label),
            None => {
                let range = self.byte_range;
                if range.start <= range.end && vstd::utf8::is_char_boundary(
                    vstd::utf8::encode_utf8(text),
                    range.start as int,
                ) && vstd::utf8::is_char_boundary(vstd::utf8::encode_utf8(text), range.end as int) {
                    (range.end - range.start) as nat
                } else {
                    0
                }
            },
        }
    }
}

impl DraftContentView {
    pub open spec fn text_element_bytes(self) -> nat {
        self.text_elements.len() * vstd::layout::size_of::<TextElement>() + crate::numbers::sum(
            self.text_elements.map_values(
                |element: TextElementView| element.placeholder_bytes(self.text),
            ),
        )
    }

    pub open spec fn local_image_bytes(self) -> nat {
        self.local_image_paths.len() * vstd::layout::size_of::<PathBuf>() + crate::numbers::sum(
            self.local_image_paths.map_values(|path: Seq<u8>| path.len()),
        )
    }

    pub open spec fn remote_image_bytes(self) -> nat {
        self.remote_image_urls.len() * vstd::layout::size_of::<String>() + crate::numbers::sum(
            self.remote_image_urls.map_values(|url: Seq<char>| utf8_len(url)),
        )
    }

    pub open spec fn mention_binding_bytes(self) -> nat {
        self.mention_bindings.len() * vstd::layout::size_of::<MentionBinding>() + crate::numbers::sum(
            self.mention_bindings.map_values(
                |binding: MentionBindingView| utf8_len(binding.mention) + utf8_len(binding.path),
            ),
        )
    }

    pub open spec fn pending_paste_bytes(self) -> nat {
        self.pending_pastes.len() * vstd::layout::size_of::<(String, String)>() + crate::numbers::sum(
            self.pending_pastes.map_values(
                |paste: (Seq<char>, Seq<char>)| utf8_len(paste.0) + utf8_len(paste.1),
            ),
        )
    }

    /// The bytes that the content keeps alive, as far as its lengths tell.
    pub open spec fn retained_bytes(self) -> nat {
        utf8_len(self.text) + self.text_element_bytes() + self.local_image_bytes()
            + self.remote_image_bytes() + self.mention_binding_bytes() + self.pending_paste_bytes()
    }
}

/// What becomes of elements once the bytes of `cut` are gone.
pub open spec fn elements_after_cut(
    elements: Seq<TextElementView>,
    cut: ByteRange,
) -> Seq<TextElementView>
    decreases elements.len(),
{
    if elements.len() == 0 {
        Seq::empty()
    } else {
        let earlier = elements_after_cut(elements.drop_last(), cut);
        if elements.last().goes_with(cut) {
            earlier
        } else {
            earlier.push(elements.last().after_cut(cut))
        }
    }
}

impl DraftView {
    /// Whether the cursor stands between two characters, or at either end of the text.
    pub open spec fn cursor_is_placed(self) -> bool {
        is_text_position(self.content.text, self.cursor as int)
    }

    /// The draft without the bytes of `cut`. The cursor and the elements stay with the characters
    /// around them, and an element that lost all its characters is gone.
    pub open spec fn without(self, cut: ByteRange) -> Self {
        let text = self.content.text;
        DraftView {
            content: DraftContentView {
                text: text_before(text, cut.start as int) + text_behind(text, cut.end as int),
                text_elements: elements_after_cut(self.content.text_elements, cut),
                ..self.content
            },
            cursor: cut.position_after_cut(self.cursor),
        }
    }

    /// The draft with `added` typed at the cursor.
    pub open spec fn with_typed(self, added: Seq<char>) -> Self {
        let text = self.content.text;
        DraftView {
            content: DraftContentView {
                text: text_before(text, self.cursor as int) + added + text_behind(
                    text,
                    self.cursor as int,
                ),
                text_elements: self.content.text_elements.map_values(
                    |element: TextElementView|
                        element.after_insertion(self.cursor, utf8_len(added)),
                ),
                ..self.content
            },
            cursor: (self.cursor + utf8_len(added)) as usize,
        }
    }

    /// The bytes that the whole draft keeps alive, clamped to a machine word.
    pub open spec fn retained_bytes(self) -> nat {
        crate::numbers::clamped(vstd::layout::size_of::<EditableDraft>() + self.content.retained_bytes())
    }
}

/// The encoding of two texts joined is that of each of them joined.
pub proof fn lemma_encoding_joins(left: Seq<char>, right: Seq<char>)
    ensures
        vstd::utf8::encode_utf8(left + right) == vstd::utf8::encode_utf8(left)
            + vstd::utf8::encode_utf8(right),
    decreases left.len(),
{
    if left.len() == 0 {
        assert(left + right =~= right);
        assert(vstd::utf8::encode_utf8(left) + vstd::utf8::encode_utf8(right)
            =~= vstd::utf8::encode_utf8(right));
    } else {
        lemma_encoding_joins(left.drop_first(), right);
        assert((left + right).drop_first() =~= left.drop_first() + right);
        assert(vstd::utf8::encode_utf8(left + right) =~= vstd::utf8::encode_utf8(left)
            + vstd::utf8::encode_utf8(right));
    }
}

/// A position splits a text and its bytes alike.
pub proof fn lemma_a_position_splits_the_text(text: Seq<char>, position: int)
    requires
        is_text_position(text, position),
    ensures
        0 <= position <= utf8_len(text),
        text_before(text, position) + text_behind(text, position) == text,
        vstd::utf8::encode_utf8(text_before(text, position)) == vstd::utf8::encode_utf8(
            text,
        ).subrange(0, position),
        vstd::utf8::encode_utf8(text_behind(text, position)) == vstd::utf8::encode_utf8(
            text,
        ).subrange(position, utf8_len(text) as int),
{
    let bytes = vstd::utf8::encode_utf8(text);
    vstd::utf8::encode_utf8_valid_utf8(text);
    vstd::utf8::valid_utf8_split(bytes, position);
    vstd::utf8::decode_utf8_split(bytes, position);
    vstd::utf8::encode_utf8_decode_utf8(text);
    vstd::utf8::decode_utf8_encode_utf8(bytes.subrange(0, position));
    vstd::utf8::decode_utf8_encode_utf8(bytes.subrange(position, bytes.len() as int));
}

/// Where two texts meet is a position of both joined, which splits them again.
pub proof fn lemma_joined_texts_split(left: Seq<char>, right: Seq<char>)
    ensures
        is_text_position(left + right, utf8_len(left) as int),
        text_before(left + right, utf8_len(left) as int) == left,
        text_behind(left + right, utf8_len(left) as int) == right,
    decreases left.len(),
{
    let joined = left + right;
    let bytes = vstd::utf8::encode_utf8(joined);
    lemma_encoding_joins(left, right);
    vstd::utf8::encode_utf8_valid_utf8(joined);
    assert(bytes.subrange(0, utf8_len(left) as int) =~= vstd::utf8::encode_utf8(left));
    assert(bytes.subrange(utf8_len(left) as int, bytes.len() as int)
        =~= vstd::utf8::encode_utf8(right));
    vstd::utf8::encode_utf8_decode_utf8(left);
    vstd::utf8::encode_utf8_decode_utf8(right);
    if left.len() > 0 {
        lemma_joined_texts_split(left.drop_first(), right);
        assert(joined.drop_first() =~= left.drop_first() + right);
        vstd::utf8::encode_utf8_first_scalar(joined);
        assert(vstd::utf8::pop_first_scalar(bytes) =~= vstd::utf8::encode_utf8(
            joined.drop_first(),
        ));
    }
}

/// Cutting bytes out of a draft takes just these bytes from its text.
pub proof fn law_a_cut_removes_just_its_bytes(draft: DraftView, cut: ByteRange)
    requires
        cut.lies_in(draft.content.text),
    ensures
        ({
            let bytes = vstd::utf8::encode_utf8(draft.content.text);
            vstd::utf8::encode_utf8(draft.without(cut).content.text) == bytes.subrange(
                0,
                cut.start as int,
            ) + bytes.subrange(cut.end as int, bytes.len() as int)
        }),
{
    let text = draft.content.text;
    lemma_a_position_splits_the_text(text, cut.start as int);
    lemma_a_position_splits_the_text(text, cut.end as int);
    lemma_encoding_joins(text_before(text, cut.start as int), text_behind(text, cut.end as int));
}

/// Typing puts the bytes of what is typed where the cursor stood, and the cursor behind them.
pub proof fn law_typing_adds_just_its_bytes(draft: DraftView, added: Seq<char>)
    requires
        draft.cursor_is_placed(),
    ensures
        ({
            let bytes = vstd::utf8::encode_utf8(draft.content.text);
            vstd::utf8::encode_utf8(draft.with_typed(added).content.text) == bytes.subrange(
                0,
                draft.cursor as int,
            ) + vstd::utf8::encode_utf8(added) + bytes.subrange(
                draft.cursor as int,
                bytes.len() as int,
            )
        }),
        utf8_len(draft.with_typed(added).content.text) <= usize::MAX ==> draft.with_typed(
            added,
        ).cursor_is_placed(),
{
    let text = draft.content.text;
    let before = text_before(text, draft.cursor as int);
    let behind = text_behind(text, draft.cursor as int);
    lemma_a_position_splits_the_text(text, draft.cursor as int);
    lemma_encoding_joins(before, added);
    lemma_encoding_joins(before + added, behind);
    lemma_joined_texts_split(before + added, behind);
}

/// The elements come back to where they stood.
proof fn lemma_cutting_what_was_typed_restores_the_elements(
    elements: Seq<TextElementView>,
    position: usize,
    bytes: nat,
    cut: ByteRange,
)
    requires
        cut.start == position,
        cut.end == position + bytes,
        forall|index: int| 0 <= index < elements.len() ==> {
            &&& (#[trigger] elements[index]).byte_range.start < elements[index].byte_range.end
            &&& elements[index].byte_range.end + bytes <= usize::MAX
        },
    ensures
        elements_after_cut(
            elements.map_values(
                |element: TextElementView| element.after_insertion(position, bytes),
            ),
            cut,
        ) == elements,
    decreases elements.len(),
{
    let moved = elements.map_values(
        |element: TextElementView| element.after_insertion(position, bytes),
    );
    if elements.len() > 0 {
        lemma_cutting_what_was_typed_restores_the_elements(
            elements.drop_last(),
            position,
            bytes,
            cut,
        );
        assert(moved.drop_last() =~= elements.drop_last().map_values(
            |element: TextElementView| element.after_insertion(position, bytes),
        ));
        assert(elements.last() == elements[elements.len() - 1]);
        assert(elements.drop_last().push(elements.last()) =~= elements);
    }
}

/// Cutting what was typed last brings back the draft before it. Every element covers some of the
/// text, and the text fits into a machine word.
pub proof fn law_cutting_what_was_typed_restores_the_draft(
    draft: DraftView,
    typed: Seq<char>,
    cut: ByteRange,
)
    requires
        draft.cursor_is_placed(),
        utf8_len(draft.content.text) + utf8_len(typed) <= usize::MAX,
        forall|index: int| 0 <= index < draft.content.text_elements.len() ==> {
            let range = (#[trigger] draft.content.text_elements[index]).byte_range;
            range.start < range.end <= utf8_len(draft.content.text)
        },
        cut.start == draft.cursor,
        cut.end == draft.cursor + utf8_len(typed),
    ensures
        cut.lies_in(draft.with_typed(typed).content.text),
        draft.with_typed(typed).without(cut) == draft,
{
    let text = draft.content.text;
    let before = text_before(text, draft.cursor as int);
    let behind = text_behind(text, draft.cursor as int);
    lemma_a_position_splits_the_text(text, draft.cursor as int);
    lemma_encoding_joins(before, typed);
    assert(before + (typed + behind) =~= before + typed + behind);
    lemma_joined_texts_split(before, typed + behind);
    lemma_joined_texts_split(before + typed, behind);
    lemma_cutting_what_was_typed_restores_the_elements(
        draft.content.text_elements,
        draft.cursor,
        utf8_len(typed),
        cut,
    );
    assert(draft.with_typed(typed).without(cut) =~= draft);
}

/// One more value adds what it counts.
proof fn lemma_one_more_counts<T>(values: Seq<T>, next: T, count: spec_fn(T) -> nat)
    ensures
        crate::numbers::sum(values.push(next).map_values(count)) == crate::numbers::sum(
            values.map_values(count),
        ) + count(next),
{
    assert(values.push(next).map_values(count).drop_last() =~= values.map_values(count));
}

/// Everything that a draft holds counts towards what it keeps alive: each further image, mention and
/// paste adds its slot and all of its texts.
pub proof fn law_every_attachment_counts(
    content: DraftContentView,
    path: Seq<u8>,
    url: Seq<char>,
    binding: MentionBindingView,
    paste: (Seq<char>, Seq<char>),
)
    ensures
        (DraftContentView {
            local_image_paths: content.local_image_paths.push(path),
            ..content
        }).retained_bytes() == content.retained_bytes() + vstd::layout::size_of::<PathBuf>()
            + path.len(),
        (DraftContentView {
            remote_image_urls: content.remote_image_urls.push(url),
            ..content
        }).retained_bytes() == content.retained_bytes() + vstd::layout::size_of::<String>()
            + utf8_len(url),
        (DraftContentView {
            mention_bindings: content.mention_bindings.push(binding),
            ..content
        }).retained_bytes() == content.retained_bytes() + vstd::layout::size_of::<MentionBinding>()
            + utf8_len(binding.mention) + utf8_len(binding.path),
        (DraftContentView {
            pending_pastes: content.pending_pastes.push(paste),
            ..content
        }).retained_bytes() == content.retained_bytes() + vstd::layout::size_of::<
            (String, String),
        >() + utf8_len(paste.0) + utf8_len(paste.1),
{
    lemma_one_more_counts(content.local_image_paths, path, |path: Seq<u8>| path.len());
    lemma_one_more_counts(content.remote_image_urls, url, |url: Seq<char>| utf8_len(url));
    lemma_one_more_counts(
        content.mention_bindings,
        binding,
        |binding: MentionBindingView| utf8_len(binding.mention) + utf8_len(binding.path),
    );
    lemma_one_more_counts(
        content.pending_pastes,
        paste,
        |paste: (Seq<char>, Seq<char>)| utf8_len(paste.0) + utf8_len(paste.1),
    );
    lemma_one_more_slot(content.local_image_paths.len(), vstd::layout::size_of::<PathBuf>());
    lemma_one_more_slot(content.remote_image_urls.len(), vstd::layout::size_of::<String>());
    lemma_one_more_slot(content.mention_bindings.len(), vstd::layout::size_of::<MentionBinding>());
    lemma_one_more_slot(
        content.pending_pastes.len(),
        vstd::layout::size_of::<(String, String)>(),
    );
}

proof fn lemma_one_more_slot(count: nat, size: nat)
    ensures
        (count + 1) * size == count * size + size,
{
    assert((count + 1) * size == count * size + size) by (nonlinear_arith);
}

proof fn lemma_no_slot(size: nat)
    ensures
        0 * size == 0,
{
}

/// The text counts with every byte. An element adds its slot, and the bytes of its label or, without
/// one, of the text that it covers, where it covers whole characters. An empty draft keeps nothing
/// alive but itself.
pub proof fn law_text_and_elements_count(
    content: DraftContentView,
    text: Seq<char>,
    element: TextElementView,
)
    ensures
        content.text_elements.len() == 0 ==> (DraftContentView {
            text,
            ..content
        }).retained_bytes() + utf8_len(content.text) == content.retained_bytes() + utf8_len(text),
        ({
            let range = element.byte_range;
            let label = match element.placeholder {
                Some(label) => utf8_len(label) as int,
                None => if range.start <= range.end && is_text_position(
                    content.text,
                    range.start as int,
                ) && is_text_position(content.text, range.end as int) {
                    range.end - range.start
                } else {
                    0
                },
            };
            (DraftContentView {
                text_elements: content.text_elements.push(element),
                ..content
            }).retained_bytes() == content.retained_bytes() + vstd::layout::size_of::<TextElement>()
                + label
        }),
        (DraftContentView {
            text: Seq::empty(),
            text_elements: Seq::empty(),
            local_image_paths: Seq::empty(),
            remote_image_urls: Seq::empty(),
            mention_bindings: Seq::empty(),
            pending_pastes: Seq::empty(),
        }).retained_bytes() == 0,
{
    lemma_one_more_counts(
        content.text_elements,
        element,
        |element: TextElementView| element.placeholder_bytes(content.text),
    );
    lemma_one_more_slot(content.text_elements.len(), vstd::layout::size_of::<TextElement>());
    assert(content.text_elements.len() == 0 ==> content.text_elements
        =~= Seq::<TextElementView>::empty());
    assert(Seq::<TextElementView>::empty().map_values(
        |element: TextElementView| element.placeholder_bytes(content.text),
    ) =~= Seq::<nat>::empty());
    assert(Seq::<TextElementView>::empty().map_values(
        |element: TextElementView| element.placeholder_bytes(text),
    ) =~= Seq::<nat>::empty());
    assert(Seq::<Seq<u8>>::empty().map_values(|path: Seq<u8>| path.len()) =~= Seq::<nat>::empty());
    assert(Seq::<Seq<char>>::empty().map_values(|url: Seq<char>| utf8_len(url))
        =~= Seq::<nat>::empty());
    assert(Seq::<MentionBindingView>::empty().map_values(
        |binding: MentionBindingView| utf8_len(binding.mention) + utf8_len(binding.path),
    ) =~= Seq::<nat>::empty());
    assert(Seq::<(Seq<char>, Seq<char>)>::empty().map_values(
        |paste: (Seq<char>, Seq<char>)| utf8_len(paste.0) + utf8_len(paste.1),
    ) =~= Seq::<nat>::empty());
    assert(crate::numbers::sum(Seq::<nat>::empty()) == 0);
    let empty = DraftContentView {
        text: Seq::empty(),
        text_elements: Seq::empty(),
        local_image_paths: Seq::empty(),
        remote_image_urls: Seq::empty(),
        mention_bindings: Seq::empty(),
        pending_pastes: Seq::empty(),
    };
    assert(utf8_len(empty.text) == 0);
    assert(empty.text_elements.map_values(
        |element: TextElementView| element.placeholder_bytes(empty.text),
    ) =~= Seq::<nat>::empty());
    lemma_no_slot(vstd::layout::size_of::<TextElement>());
    lemma_no_slot(vstd::layout::size_of::<PathBuf>());
    lemma_no_slot(vstd::layout::size_of::<String>());
    lemma_no_slot(vstd::layout::size_of::<MentionBinding>());
    lemma_no_slot(vstd::layout::size_of::<(String, String)>());
    assert(empty.mention_bindings.map_values(
        |binding: MentionBindingView| utf8_len(binding.mention) + utf8_len(binding.path),
    ) =~= Seq::<nat>::empty());
    assert(empty.pending_pastes.map_values(
        |paste: (Seq<char>, Seq<char>)| utf8_len(paste.0) + utf8_len(paste.1),
    ) =~= Seq::<nat>::empty());
    assert(empty.text_element_bytes() == 0);
    assert(empty.local_image_bytes() == 0);
    assert(empty.remote_image_bytes() == 0);
    assert(empty.mention_binding_bytes() == 0);
    assert(empty.pending_paste_bytes() == 0);
    assert(content.text_elements.len() == 0 ==> content.text_element_bytes() == 0);
    assert(content.text_elements.len() == 0 ==> (DraftContentView {
        text,
        ..content
    }).text_element_bytes() == 0);
}

/// Cutting and typing change the text, its elements and the cursor, and nothing else of a draft: every
/// image, mention and paste stays.
pub proof fn law_editing_the_text_keeps_every_attachment(
    draft: DraftView,
    cut: ByteRange,
    added: Seq<char>,
)
    ensures
        draft.without(cut).content == (DraftContentView {
            text: draft.without(cut).content.text,
            text_elements: draft.without(cut).content.text_elements,
            ..draft.content
        }),
        draft.with_typed(added).content == (DraftContentView {
            text: draft.with_typed(added).content.text,
            text_elements: draft.with_typed(added).content.text_elements,
            ..draft.content
        }),
        draft.with_typed(added).content.text_elements.len() == draft.content.text_elements.len(),
{
}

/// The cursor stays with the characters round it: what is cut before it moves it back, what is cut
/// round it moves it to where the cut was, and what is cut behind it leaves it alone.
pub proof fn law_the_cursor_stays_with_its_text(draft: DraftView, cut: ByteRange)
    requires
        cut.start <= cut.end,
    ensures
        draft.cursor <= cut.start ==> draft.without(cut).cursor == draft.cursor,
        cut.start <= draft.cursor <= cut.end ==> draft.without(cut).cursor == cut.start,
        draft.cursor >= cut.end ==> draft.without(cut).cursor + (cut.end - cut.start)
            == draft.cursor,
{
}

/// An element goes exactly where all of it is cut, and every other one stays, in the same order and
/// with its label.
pub proof fn law_an_element_goes_where_all_of_it_is_cut(
    elements: Seq<TextElementView>,
    next: TextElementView,
    cut: ByteRange,
)
    ensures
        elements_after_cut(Seq::empty(), cut).len() == 0,
        ({
            let gone = cut.start < cut.end && cut.start <= next.byte_range.start
                && next.byte_range.end <= cut.end;
            let before = elements_after_cut(elements, cut);
            let after = elements_after_cut(elements.push(next), cut);
            &&& gone ==> after == before
            &&& !gone ==> after.len() == before.len() + 1 && after.drop_last() == before
                && after.last().placeholder == next.placeholder
        }),
{
    assert(elements.push(next).drop_last() =~= elements);
    let before = elements_after_cut(elements, cut);
    assert(before.push(next.after_cut(cut)).drop_last() =~= before);
}

/// An element before or behind a cut covers the same text after it.
pub proof fn law_an_element_keeps_its_text_through_a_cut(
    draft: DraftView,
    element: TextElementView,
    cut: ByteRange,
)
    requires
        cut.lies_in(draft.content.text),
        element.byte_range.start <= element.byte_range.end <= utf8_len(draft.content.text),
        element.byte_range.end <= cut.start || cut.end <= element.byte_range.start,
    ensures
        ({
            let moved = element.after_cut(cut).byte_range;
            let after = vstd::utf8::encode_utf8(draft.without(cut).content.text);
            &&& moved.start <= moved.end <= after.len()
            &&& after.subrange(moved.start as int, moved.end as int) == vstd::utf8::encode_utf8(
                draft.content.text,
            ).subrange(element.byte_range.start as int, element.byte_range.end as int)
        }),
{
    let bytes = vstd::utf8::encode_utf8(draft.content.text);
    let after = vstd::utf8::encode_utf8(draft.without(cut).content.text);
    let moved = element.after_cut(cut).byte_range;
    law_a_cut_removes_just_its_bytes(draft, cut);
    lemma_a_position_splits_the_text(draft.content.text, cut.start as int);
    lemma_a_position_splits_the_text(draft.content.text, cut.end as int);
    assert(after.subrange(moved.start as int, moved.end as int) =~= bytes.subrange(
        element.byte_range.start as int,
        element.byte_range.end as int,
    ));
}

/// What is left of an element whose text is cut in part covers just what is left of its text.
pub proof fn law_an_element_keeps_what_is_left_of_its_text(
    draft: DraftView,
    element: TextElementView,
    cut: ByteRange,
)
    requires
        cut.lies_in(draft.content.text),
        element.byte_range.start <= element.byte_range.end <= utf8_len(draft.content.text),
    ensures
        ({
            let range = element.byte_range;
            let moved = element.after_cut(cut).byte_range;
            let before = vstd::utf8::encode_utf8(draft.content.text);
            let after = vstd::utf8::encode_utf8(draft.without(cut).content.text);
            let left_end = if range.end <= cut.start {
                range.end
            } else if range.start <= cut.start {
                cut.start
            } else {
                range.start
            };
            let right_start = if cut.end <= range.start {
                range.start
            } else if cut.end <= range.end {
                cut.end
            } else {
                range.end
            };
            &&& moved.start <= moved.end <= after.len()
            &&& cut.start < range.end && range.start < cut.end ==> after.subrange(
                moved.start as int,
                moved.end as int,
            ) == before.subrange(range.start as int, left_end as int) + before.subrange(
                right_start as int,
                range.end as int,
            )
            &&& element.after_cut(cut).placeholder == element.placeholder
        }),
{
    let range = element.byte_range;
    let bytes = vstd::utf8::encode_utf8(draft.content.text);
    let after = vstd::utf8::encode_utf8(draft.without(cut).content.text);
    let moved = element.after_cut(cut).byte_range;
    law_a_cut_removes_just_its_bytes(draft, cut);
    lemma_a_position_splits_the_text(draft.content.text, cut.start as int);
    lemma_a_position_splits_the_text(draft.content.text, cut.end as int);
    if cut.start < range.end && range.start < cut.end {
        let left_end = if range.start <= cut.start {
            cut.start
        } else {
            range.start
        };
        let right_start = if cut.end <= range.end {
            cut.end
        } else {
            range.end
        };
        assert(after.subrange(moved.start as int, moved.end as int) =~= bytes.subrange(
            range.start as int,
            left_end as int,
        ) + bytes.subrange(right_start as int, range.end as int));
    }
}

/// Cutting and typing move the elements of a draft along with its text: a further element changes nothing
/// of the others, goes where all of it is cut, and stays otherwise.
pub proof fn law_the_elements_of_a_draft_follow_its_text(
    draft: DraftView,
    next: TextElementView,
    cut: ByteRange,
    added: Seq<char>,
)
    ensures
        ({
            let with_next = DraftView {
                content: DraftContentView {
                    text_elements: draft.content.text_elements.push(next),
                    ..draft.content
                },
                ..draft
            };
            let gone = cut.start < cut.end && cut.start <= next.byte_range.start
                && next.byte_range.end <= cut.end;
            let before = draft.without(cut).content.text_elements;
            let after = with_next.without(cut).content.text_elements;
            let typed = with_next.with_typed(added).content.text_elements;
            &&& draft.content.text_elements.len() == 0 ==> before.len() == 0
            &&& gone ==> after == before
            &&& !gone ==> after == before.push(next.after_cut(cut))
            &&& typed == draft.with_typed(added).content.text_elements.push(
                next.after_insertion(draft.cursor, utf8_len(added)),
            )
            &&& with_next.without(cut).content.text == draft.without(cut).content.text
            &&& with_next.with_typed(added).content.text == draft.with_typed(added).content.text
        }),
{
    let elements = draft.content.text_elements;
    assert(elements.push(next).drop_last() =~= elements);
    let moved = |element: TextElementView| element.after_insertion(draft.cursor, utf8_len(added));
    assert(elements.push(next).map_values(moved) =~= elements.map_values(moved).push(moved(next)));
}

/// Typing leaves the cursor behind what was typed.
pub proof fn law_the_cursor_moves_behind_what_was_typed(draft: DraftView, added: Seq<char>)
    requires
        draft.cursor + utf8_len(added) <= usize::MAX,
    ensures
        draft.with_typed(added).cursor == draft.cursor + utf8_len(added),
{
}

/// A draft keeps as many bytes alive as its content and the draft itself, wherever that can be counted.
pub proof fn law_a_draft_counts_itself_and_its_content(draft: DraftView)
    ensures
        vstd::layout::size_of::<EditableDraft>() + draft.content.retained_bytes() <= usize::MAX
            ==> draft.retained_bytes() == vstd::layout::size_of::<EditableDraft>()
            + draft.content.retained_bytes(),
        vstd::layout::size_of::<EditableDraft>() + draft.content.retained_bytes() > usize::MAX
            ==> draft.retained_bytes() == usize::MAX,
{
}

/// An element that ends before the cursor or starts behind it covers the same text once something was
/// typed there, and one that the cursor stands in covers what was typed as well.
pub proof fn law_an_element_keeps_its_text_through_typing(
    draft: DraftView,
    element: TextElementView,
    added: Seq<char>,
)
    requires
        draft.cursor_is_placed(),
        element.byte_range.start < element.byte_range.end <= utf8_len(draft.content.text),
        utf8_len(draft.content.text) + utf8_len(added) <= usize::MAX,
    ensures
        ({
            let range = element.byte_range;
            let moved = element.after_insertion(draft.cursor, utf8_len(added)).byte_range;
            let before = vstd::utf8::encode_utf8(draft.content.text);
            let after = vstd::utf8::encode_utf8(draft.with_typed(added).content.text);
            &&& moved.start < moved.end <= after.len()
            &&& range.end <= draft.cursor || draft.cursor <= range.start ==> after.subrange(
                moved.start as int,
                moved.end as int,
            ) == before.subrange(range.start as int, range.end as int)
            &&& range.start < draft.cursor < range.end ==> after.subrange(
                moved.start as int,
                moved.end as int,
            ) == before.subrange(range.start as int, draft.cursor as int)
                + vstd::utf8::encode_utf8(added) + before.subrange(
                draft.cursor as int,
                range.end as int,
            )
            &&& element.after_insertion(draft.cursor, utf8_len(added)).placeholder
                == element.placeholder
        }),
{
    let range = element.byte_range;
    let moved = element.after_insertion(draft.cursor, utf8_len(added)).byte_range;
    let before = vstd::utf8::encode_utf8(draft.content.text);
    let after = vstd::utf8::encode_utf8(draft.with_typed(added).content.text);
    law_typing_adds_just_its_bytes(draft, added);
    lemma_a_position_splits_the_text(draft.content.text, draft.cursor as int);
    let shown = after.subrange(moved.start as int, moved.end as int);
    if range.end <= draft.cursor || draft.cursor <= range.start {
        assert(shown =~= before.subrange(range.start as int, range.end as int));
    } else {
        assert(shown =~= before.subrange(range.start as int, draft.cursor as int)
            + vstd::utf8::encode_utf8(added) + before.subrange(
            draft.cursor as int,
            range.end as int,
        ));
    }
}

/// Drafts that are told apart by nothing in their views are the same in everything that the user put
/// into them, and in where the cursor stands.
pub proof fn law_the_view_of_a_draft_is_all_of_it(left: EditableDraft, right: EditableDraft)
    ensures
        left@ == right@ <==> {
            &&& left.cursor == right.cursor
            &&& left.content.text@ == right.content.text@
            &&& left.content.text_elements.deep_view() == right.content.text_elements.deep_view()
            &&& left.content.local_image_paths.deep_view()
                == right.content.local_image_paths.deep_view()
            &&& left.content.remote_image_urls.deep_view()
                == right.content.remote_image_urls.deep_view()
            &&& left.content.mention_bindings.deep_view()
                == right.content.mention_bindings.deep_view()
            &&& left.content.pending_pastes.deep_view()
                == right.content.pending_pastes.deep_view()
        },
{
}

/// The same holds of each element, mention and image of a draft.
pub proof fn law_the_views_of_attachments_are_all_of_them(
    left: TextElement,
    right: TextElement,
    mention: MentionBinding,
    other_mention: MentionBinding,
    image: ImagePath,
    other_image: ImagePath,
)
    ensures
        left.deep_view() == right.deep_view() <==> left.byte_range.start == right.byte_range.start
            && left.byte_range.end == right.byte_range.end && left.placeholder.deep_view()
            == right.placeholder.deep_view(),
        mention.deep_view() == other_mention.deep_view() <==> mention.mention@
            == other_mention.mention@ && mention.path@ == other_mention.path@,
        image.deep_view() == other_image.deep_view() <==> image.encoded@ == other_image.encoded@,
{
    assert(image.encoded.deep_view() =~= image.encoded@);
    assert(other_image.encoded.deep_view() =~= other_image.encoded@);
}

/// The bytes in the UTF-8 encoding of `text`.
pub fn utf8_bytes(text: &str) -> (bytes: usize)
    ensures
        bytes == utf8_len(text@),
{
    text.as_bytes().len()
}

/// Bytes of `count` values of `size` bytes each, clamped to a machine word.
fn slots(count: usize, size: usize) -> (bytes: usize)
    ensures
        bytes == crate::numbers::clamped((count * size) as nat),
{
    match count.checked_mul(size) {
        Some(bytes) => bytes,
        None => usize::MAX,
    }
}

impl ByteRange {
    fn shift_after_cut(&self, position: usize) -> (shifted: usize)
        requires
            self.start <= self.end,
        ensures
            shifted == self.position_after_cut(position),
    {
        if position <= self.start {
            position
        } else if position <= self.end {
            self.start
        } else {
            position - (self.end - self.start)
        }
    }
}

/// A text cut in two at a byte position.
fn split_text(text: &str, position: usize) -> (parts: (&str, &str))
    requires
        is_text_position(text@, position as int),
    ensures
        parts.0@ == text_before(text@, position as int),
        parts.1@ == text_behind(text@, position as int),
{
    let parts = text.split_at(position);
    proof {
        vstd::utf8::encode_utf8_decode_utf8(parts.0@);
        vstd::utf8::encode_utf8_decode_utf8(parts.1@);
    }
    parts
}

impl Content for TextElement {
    fn duplicate(&self) -> (copy: Self) {
        TextElement { byte_range: self.byte_range, placeholder: self.placeholder.duplicate() }
    }

    fn same_as(&self, other: &Self) -> (same: bool) {
        self.byte_range == other.byte_range && self.placeholder.same_as(&other.placeholder)
    }
}

impl Content for MentionBinding {
    fn duplicate(&self) -> (copy: Self) {
        MentionBinding { mention: self.mention.duplicate(), path: self.path.duplicate() }
    }

    fn same_as(&self, other: &Self) -> (same: bool) {
        self.mention.same_as(&other.mention) && self.path.same_as(&other.path)
    }
}

impl Content for ImagePath {
    fn duplicate(&self) -> (copy: Self) {
        ImagePath { encoded: self.encoded.duplicate() }
    }

    fn same_as(&self, other: &Self) -> (same: bool) {
        self.encoded.same_as(&other.encoded)
    }
}

impl Content for EditableDraftContent {
    fn duplicate(&self) -> (copy: Self) {
        EditableDraftContent {
            text: self.text.duplicate(),
            text_elements: self.text_elements.duplicate(),
            local_image_paths: self.local_image_paths.duplicate(),
            remote_image_urls: self.remote_image_urls.duplicate(),
            mention_bindings: self.mention_bindings.duplicate(),
            pending_pastes: self.pending_pastes.duplicate(),
        }
    }

    fn same_as(&self, other: &Self) -> (same: bool) {
        self.text.same_as(&other.text) && self.text_elements.same_as(&other.text_elements)
            && self.local_image_paths.same_as(&other.local_image_paths)
            && self.remote_image_urls.same_as(&other.remote_image_urls)
            && self.mention_bindings.same_as(&other.mention_bindings)
            && self.pending_pastes.same_as(&other.pending_pastes)
    }
}

impl Content for EditableDraft {
    fn duplicate(&self) -> (copy: Self) {
        EditableDraft { content: self.content.duplicate(), cursor: self.cursor }
    }

    fn same_as(&self, other: &Self) -> (same: bool) {
        self.cursor == other.cursor && self.content.same_as(&other.content)
    }
}

impl TextElement {
    /// The bytes of the label that the element shows in `text`.
    fn placeholder_bytes(&self, text: &str) -> (bytes: usize)
        ensures
            bytes == self.deep_view().placeholder_bytes(text@),
    {
        match &self.placeholder {
            Some(label) => utf8_bytes(label.as_str()),
            None => {
                let range = self.byte_range;
                if range.start <= range.end && text.is_char_boundary(range.start)
                    && text.is_char_boundary(range.end) {
                    range.end - range.start
                } else {
                    0
                }
            },
        }
    }
}

impl EditableDraftContent {
    fn text_element_bytes(&self) -> (bytes: usize)
        ensures
            bytes == crate::numbers::clamped(self.deep_view().text_element_bytes()),
    {
        let ghost view = self.deep_view();
        let ghost each = view.text_elements.map_values(
            |element: TextElementView| element.placeholder_bytes(view.text),
        );
        let mut bytes: usize = slots(self.text_elements.len(), std::mem::size_of::<TextElement>());
        let ghost base = view.text_elements.len() * vstd::layout::size_of::<TextElement>();
        let mut index: usize = 0;
        while index < self.text_elements.len()
            invariant
                index <= self.text_elements.len(),
                view == self.deep_view(),
                each == view.text_elements.map_values(
                    |element: TextElementView| element.placeholder_bytes(view.text),
                ),
                bytes == crate::numbers::clamped((base + crate::numbers::sum(each.take(index as int))) as nat),
            decreases self.text_elements.len() - index,
        {
            proof {
                crate::numbers::lemma_sum_step(each, index as int);
            }
            let label: usize = self.text_elements[index].placeholder_bytes(self.text.as_str());
            bytes = bytes.saturating_add(label);
            index += 1;
        }
        assert(each.take(index as int) =~= each);
        bytes
    }

    fn local_image_bytes(&self) -> (bytes: usize)
        ensures
            bytes == crate::numbers::clamped(self.deep_view().local_image_bytes()),
    {
        let ghost view = self.deep_view();
        let ghost each = view.local_image_paths.map_values(|path: Seq<u8>| path.len());
        let mut bytes: usize = slots(self.local_image_paths.len(), std::mem::size_of::<PathBuf>());
        let ghost base = view.local_image_paths.len() * vstd::layout::size_of::<PathBuf>();
        let mut index: usize = 0;
        while index < self.local_image_paths.len()
            invariant
                index <= self.local_image_paths.len(),
                view == self.deep_view(),
                each == view.local_image_paths.map_values(|path: Seq<u8>| path.len()),
                bytes == crate::numbers::clamped((base + crate::numbers::sum(each.take(index as int))) as nat),
            decreases self.local_image_paths.len() - index,
        {
            proof {
                crate::numbers::lemma_sum_step(each, index as int);
            }
            bytes = bytes.saturating_add(self.local_image_paths[index].encoded.len());
            index += 1;
        }
        assert(each.take(index as int) =~= each);
        bytes
    }

    fn remote_image_bytes(&self) -> (bytes: usize)
        ensures
            bytes == crate::numbers::clamped(self.deep_view().remote_image_bytes()),
    {
        let ghost view = self.deep_view();
        let ghost each = view.remote_image_urls.map_values(|url: Seq<char>| utf8_len(url));
        let mut bytes: usize = slots(self.remote_image_urls.len(), std::mem::size_of::<String>());
        let ghost base = view.remote_image_urls.len() * vstd::layout::size_of::<String>();
        let mut index: usize = 0;
        while index < self.remote_image_urls.len()
            invariant
                index <= self.remote_image_urls.len(),
                view == self.deep_view(),
                each == view.remote_image_urls.map_values(|url: Seq<char>| utf8_len(url)),
                bytes == crate::numbers::clamped((base + crate::numbers::sum(each.take(index as int))) as nat),
            decreases self.remote_image_urls.len() - index,
        {
            proof {
                crate::numbers::lemma_sum_step(each, index as int);
            }
            bytes = bytes.saturating_add(utf8_bytes(self.remote_image_urls[index].as_str()));
            index += 1;
        }
        assert(each.take(index as int) =~= each);
        bytes
    }

    fn mention_binding_bytes(&self) -> (bytes: usize)
        ensures
            bytes == crate::numbers::clamped(self.deep_view().mention_binding_bytes()),
    {
        let ghost view = self.deep_view();
        let ghost each = view.mention_bindings.map_values(
            |binding: MentionBindingView| utf8_len(binding.mention) + utf8_len(binding.path),
        );
        let mut bytes: usize = slots(
            self.mention_bindings.len(),
            std::mem::size_of::<MentionBinding>(),
        );
        let ghost base = view.mention_bindings.len() * vstd::layout::size_of::<MentionBinding>();
        let mut index: usize = 0;
        while index < self.mention_bindings.len()
            invariant
                index <= self.mention_bindings.len(),
                view == self.deep_view(),
                each == view.mention_bindings.map_values(
                    |binding: MentionBindingView|
                        utf8_len(binding.mention) + utf8_len(binding.path),
                ),
                bytes == crate::numbers::clamped((base + crate::numbers::sum(each.take(index as int))) as nat),
            decreases self.mention_bindings.len() - index,
        {
            proof {
                crate::numbers::lemma_sum_step(each, index as int);
            }
            let binding = &self.mention_bindings[index];
            bytes = bytes.saturating_add(utf8_bytes(binding.mention.as_str()));
            bytes = bytes.saturating_add(utf8_bytes(binding.path.as_str()));
            index += 1;
        }
        assert(each.take(index as int) =~= each);
        bytes
    }

    fn pending_paste_bytes(&self) -> (bytes: usize)
        ensures
            bytes == crate::numbers::clamped(self.deep_view().pending_paste_bytes()),
    {
        let ghost view = self.deep_view();
        let ghost each = view.pending_pastes.map_values(
            |paste: (Seq<char>, Seq<char>)| utf8_len(paste.0) + utf8_len(paste.1),
        );
        let mut bytes: usize = slots(
            self.pending_pastes.len(),
            std::mem::size_of::<(String, String)>(),
        );
        let ghost base = view.pending_pastes.len() * vstd::layout::size_of::<(String, String)>();
        let mut index: usize = 0;
        while index < self.pending_pastes.len()
            invariant
                index <= self.pending_pastes.len(),
                view == self.deep_view(),
                each == view.pending_pastes.map_values(
                    |paste: (Seq<char>, Seq<char>)| utf8_len(paste.0) + utf8_len(paste.1),
                ),
                bytes == crate::numbers::clamped((base + crate::numbers::sum(each.take(index as int))) as nat),
            decreases self.pending_pastes.len() - index,
        {
            proof {
                crate::numbers::lemma_sum_step(each, index as int);
            }
            let paste = &self.pending_pastes[index];
            bytes = bytes.saturating_add(utf8_bytes(paste.0.as_str()));
            bytes = bytes.saturating_add(utf8_bytes(paste.1.as_str()));
            index += 1;
        }
        assert(each.take(index as int) =~= each);
        bytes
    }

    /// The bytes that the content keeps alive: the text, and for each list its slots and what the
    /// slots point at. A total that no machine word holds is reported as `usize::MAX`.
    pub fn estimated_retained_bytes(&self) -> (bytes: usize)
        ensures
            bytes == crate::numbers::clamped(self.deep_view().retained_bytes()),
    {
        utf8_bytes(self.text.as_str()).saturating_add(self.text_element_bytes()).saturating_add(
            self.local_image_bytes(),
        ).saturating_add(self.remote_image_bytes()).saturating_add(
            self.mention_binding_bytes(),
        ).saturating_add(self.pending_paste_bytes())
    }
}

impl EditableDraft {
    /// Whether both drafts hold the same content, wherever their cursors stand.
    pub fn has_same_content(&self, other: &Self) -> (same: bool)
        ensures
            same == (self@.content == other@.content),
    {
        self.content.same_as(&other.content)
    }

    /// The bytes that the draft keeps alive, clamped to a machine word.
    pub fn estimated_retained_bytes(&self) -> (bytes: usize)
        ensures
            bytes == self@.retained_bytes(),
    {
        std::mem::size_of::<EditableDraft>().saturating_add(self.content.estimated_retained_bytes())
    }

    /// Cut bytes out of the text.
    pub fn cut_bytes(&mut self, cut: ByteRange)
        requires
            cut.lies_in(old(self)@.content.text),
        ensures
            final(self)@ == old(self)@.without(cut),
    {
        let ghost before = self@;
        let mut text = split_text(self.content.text.as_str(), cut.start).0.to_owned();
        text.append(split_text(self.content.text.as_str(), cut.end).1);
        let mut elements: Vec<TextElement> = Vec::new();
        let mut index: usize = 0;
        while index < self.content.text_elements.len()
            invariant
                cut.start <= cut.end,
                self@ == before,
                index <= self.content.text_elements.len(),
                elements.deep_view() == elements_after_cut(
                    before.content.text_elements.take(index as int),
                    cut,
                ),
            decreases self.content.text_elements.len() - index,
        {
            let element = &self.content.text_elements[index];
            let ghost kept = elements.deep_view();
            proof {
                let next = before.content.text_elements.take(index + 1);
                assert(next.drop_last() =~= before.content.text_elements.take(index as int));
                assert(next.last() == element.deep_view());
            }
            let goes = cut.start < cut.end && cut.start <= element.byte_range.start
                && element.byte_range.end <= cut.end;
            if !goes {
                let moved = TextElement {
                    byte_range: ByteRange {
                        start: cut.shift_after_cut(element.byte_range.start),
                        end: cut.shift_after_cut(element.byte_range.end),
                    },
                    placeholder: element.placeholder.duplicate(),
                };
                let ghost pushed = moved.deep_view();
                elements.push(moved);
                assert(elements.deep_view() =~= kept.push(pushed));
            }
            index += 1;
        }
        assert(before.content.text_elements.take(index as int)
            =~= before.content.text_elements);
        self.content.text = text;
        self.content.text_elements = elements;
        self.cursor = cut.shift_after_cut(self.cursor);
        assert(self@ =~= before.without(cut));
    }

    /// Type `added` at the cursor.
    pub fn type_text(&mut self, added: &str)
        requires
            old(self)@.cursor_is_placed(),
        ensures
            final(self)@ == old(self)@.with_typed(added@),
    {
        let ghost before = self@;
        let position: usize = self.cursor;
        let bytes: usize = utf8_bytes(added);
        let parts = split_text(self.content.text.as_str(), position);
        let mut text = parts.0.to_owned();
        text.append(added);
        text.append(parts.1);
        // The text fits into memory, so its end fits into a machine word.
        let _text_bytes: usize = utf8_bytes(text.as_str());
        proof {
            lemma_a_position_splits_the_text(before.content.text, position as int);
            lemma_encoding_joins(text_before(before.content.text, position as int), added@);
            lemma_encoding_joins(
                text_before(before.content.text, position as int) + added@,
                text_behind(before.content.text, position as int),
            );
        }
        let mut elements: Vec<TextElement> = Vec::new();
        let ghost moved_elements = before.with_typed(added@).content.text_elements;
        let mut index: usize = 0;
        while index < self.content.text_elements.len()
            invariant
                self@ == before,
                position == before.cursor,
                bytes == utf8_len(added@),
                index <= self.content.text_elements.len(),
                moved_elements == before.with_typed(added@).content.text_elements,
                elements.deep_view() == moved_elements.take(index as int),
            decreases self.content.text_elements.len() - index,
        {
            let element = &self.content.text_elements[index];
            let ghost kept = elements.deep_view();
            let moved = TextElement {
                byte_range: ByteRange {
                    start: if element.byte_range.start < position {
                        element.byte_range.start
                    } else {
                        element.byte_range.start.saturating_add(bytes)
                    },
                    end: if element.byte_range.end <= position {
                        element.byte_range.end
                    } else {
                        element.byte_range.end.saturating_add(bytes)
                    },
                },
                placeholder: element.placeholder.duplicate(),
            };
            let ghost pushed = moved.deep_view();
            elements.push(moved);
            proof {
                assert(before.content.text_elements[index as int] == element.deep_view());
                assert(pushed == moved_elements[index as int]);
                assert(elements.deep_view() =~= kept.push(pushed));
                assert(elements.deep_view() =~= moved_elements.take(index + 1));
            }
            index += 1;
        }
        assert(moved_elements.take(index as int) =~= moved_elements);
        self.content.text = text;
        self.content.text_elements = elements;
        self.cursor = position + bytes;
        assert(self@ =~= before.with_typed(added@));
    }
}

} // verus!
