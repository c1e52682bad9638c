//! The message data of the service: content blocks, token usage and the
//! (partial) message that a response carries, with the rules by which partial
//! messages are merged.

use vstd::prelude::*;
use vstd::string::StringExecFns;
use vstd::utf8::encode_utf8;

verus! {

/// Token counts, as mathematical integers.
pub struct TokenCount {
    pub input: nat,
    pub output: nat,
}

/// Token usage reported by the service.
#[derive(Debug, Clone, Copy, PartialEq, Eq, Structural)]
pub struct Usage {
    pub input_tokens: u64,
    pub output_tokens: u64,
}

impl View for Usage {
    type V = TokenCount;

    open spec fn view(&self) -> TokenCount {
        TokenCount { input: self.input_tokens as nat, output: self.output_tokens as nat }
    }
}

/// Elementwise sum of two token counts.
pub open spec fn count_sum(a: TokenCount, b: TokenCount) -> TokenCount {
    TokenCount { input: a.input + b.input, output: a.output + b.output }
}

/// Whether the elementwise sum of two usages fits the counters.
pub open spec fn usage_sum_fits(a: Usage, b: Usage) -> bool {
    a.input_tokens + b.input_tokens <= u64::MAX && a.output_tokens + b.output_tokens <= u64::MAX
}

impl Usage {
    /// Adds `other` to these counts, field by field.
    pub fn extend(&mut self, other: Self)
        requires
            usage_sum_fits(*old(self), other),
        ensures
            final(self)@ == count_sum(old(self)@, other@),
    {
        self.input_tokens = self.input_tokens + other.input_tokens;
        self.output_tokens = self.output_tokens + other.output_tokens;
    }

    /// Whether `extend` with `other` stays within the counters.
    pub fn can_extend(&self, other: &Self) -> (r: bool)
        ensures
            r == usage_sum_fits(*self, *other),
    {
        self.input_tokens <= u64::MAX - other.input_tokens && self.output_tokens <= u64::MAX
            - other.output_tokens
    }
}


/// The source of an image block: its encoding, media type and encoded data.
#[derive(Debug, Clone)]
pub struct ImageSource {
    pub typ: String,
    pub media_type: String,
    pub data: String,
}

/// One block of message content.
#[derive(Debug, Clone)]
pub enum Content {
    Text { text: String },
    TextDelta { text: String },
    Image { source: ImageSource },
}

/// A content block, over character sequences.
pub enum BlockModel {
    Text(Seq<char>),
    TextDelta(Seq<char>),
    Image { typ: Seq<char>, media_type: Seq<char>, data: Seq<char> },
}

impl View for Content {
    type V = BlockModel;

    open spec fn view(&self) -> BlockModel {
        match self {
            Content::Text { text } => BlockModel::Text(text@),
            Content::TextDelta { text } => BlockModel::TextDelta(text@),
            Content::Image { source } => BlockModel::Image {
                typ: source.typ@,
                media_type: source.media_type@,
                data: source.data@,
            },
        }
    }
}

impl PartialEq for Content {
    fn eq(&self, other: &Content) -> (r: bool)
        ensures
            r == (self@ == other@),
    {
        match (self, other) {
            (Content::Text { text: a }, Content::Text { text: b }) => *a == *b,
            (Content::TextDelta { text: a }, Content::TextDelta { text: b }) => *a == *b,
            (Content::Image { source: a }, Content::Image { source: b }) => {
                a.typ == b.typ && a.media_type == b.media_type && a.data == b.data
            },
            _ => false,
        }
    }
}

impl vstd::std_specs::cmp::PartialEqSpecImpl for Content {
    open spec fn obeys_eq_spec() -> bool {
        true
    }

    open spec fn eq_spec(&self, other: &Content) -> bool {
        self@ == other@
    }
}

impl Eq for Content {

}

/// The decimal digit for `d < 10`.
pub open spec fn digit(d: nat) -> char {
    seq!['0', '1', '2', '3', '4', '5', '6', '7', '8', '9'][d as int]
}

/// The decimal notation of `n`, without sign or leading zeros.
pub open spec fn decimal(n: nat) -> Seq<char>
    decreases n,
{
    if n < 10 {
        seq![digit(n)]
    } else {
        decimal(n / 10).push(digit(n % 10))
    }
}

/// Relies on `ToString` for `usize` in std, which writes the number in decimal
/// with no sign, padding or separators.
#[verifier::external_body]
pub(crate) fn decimal_string(n: usize) -> (r: String)
    ensures
        r@ == decimal(n as nat),
{
    n.to_string()
}

/// The text that a block contributes to the output: the text of a text block,
/// and a short placeholder naming the media type and the length in UTF-8 bytes
/// of the encoded data of an image.
pub open spec fn block_text(b: BlockModel) -> Seq<char> {
    match b {
        BlockModel::Text(t) => t,
        BlockModel::TextDelta(t) => t,
        BlockModel::Image { media_type, data, .. } => "["@ + media_type + " ("@ + decimal(encode_utf8(data).len()) + " bytes)]"@,
    }
}

/// The texts of a sequence of blocks, concatenated in order.
pub open spec fn blocks_text(bs: Seq<BlockModel>) -> Seq<char>
    decreases bs.len(),
{
    if bs.len() == 0 {
        seq![]
    } else {
        blocks_text(bs.drop_last()) + block_text(bs.last())
    }
}

impl Content {
    /// A text block holding `s`.
    pub fn text(s: &str) -> (r: Content)
        ensures
            r@ == BlockModel::Text(s@),
    {
        Content::Text { text: s.to_owned() }
    }

    /// The text that this block contributes to the output (see `block_text`).
    pub fn fragment(&self) -> (r: String)
        ensures
            r@ == block_text(self@),
    {
        match self {
            Content::Text { text } => text.as_str().to_owned(),
            Content::TextDelta { text } => text.as_str().to_owned(),
            Content::Image { source } => {
                let size = decimal_string(source.data.as_str().as_bytes().len());
                let mut out = "[".to_owned();
                out.append(source.media_type.as_str());
                out.append(" (");
                out.append(size.as_str());
                out.append(" bytes)]");
                out
            },
        }
    }
}


/// A message as the service returns it, or a partial message carried by a delta;
/// missing fields are empty.
#[derive(Debug, Clone)]
pub struct MessagesResponse {
    pub content: Vec<Content>,
    pub id: String,
    pub model: String,
    pub role: String,
    pub stop_reason: Option<String>,
    pub stop_sequence: Option<String>,
    pub usage: Option<Usage>,
}

/// A message, over character sequences and token counts.
pub struct MessageModel {
    pub content: Seq<BlockModel>,
    pub id: Seq<char>,
    pub model: Seq<char>,
    pub role: Seq<char>,
    pub stop_reason: Option<Seq<char>>,
    pub stop_sequence: Option<Seq<char>>,
    pub usage: Option<TokenCount>,
}

/// The view of an optional value.
pub open spec fn opt_view<T: View>(o: Option<T>) -> Option<T::V> {
    match o {
        Some(x) => Some(x@),
        None => None,
    }
}

impl View for MessagesResponse {
    type V = MessageModel;

    open spec fn view(&self) -> MessageModel {
        MessageModel {
            content: self.content@.map_values(|c: Content| c@),
            id: self.id@,
            model: self.model@,
            role: self.role@,
            stop_reason: opt_view(self.stop_reason),
            stop_sequence: opt_view(self.stop_sequence),
            usage: opt_view(self.usage),
        }
    }
}

/// The message with no content and every field empty.
pub open spec fn empty_message() -> MessageModel {
    MessageModel {
        content: seq![],
        id: seq![],
        model: seq![],
        role: seq![],
        stop_reason: None,
        stop_sequence: None,
        usage: None,
    }
}

/// How usages merge: an absent incoming usage changes nothing, a present one is
/// adopted where none was, and summed elementwise where one was.
pub open spec fn usage_merged(a: Option<TokenCount>, b: Option<TokenCount>) -> Option<TokenCount> {
    match (a, b) {
        (_, None) => a,
        (None, Some(y)) => Some(y),
        (Some(x), Some(y)) => Some(count_sum(x, y)),
    }
}

/// `a` with the partial message `b` merged into it: content concatenated in
/// order; `id`, `model` and `role` replaced only by non-empty values; the stop
/// fields replaced only by present values; usage merged by `usage_merged`.
pub open spec fn merged(a: MessageModel, b: MessageModel) -> MessageModel {
    MessageModel {
        content: a.content + b.content,
        id: if b.id.len() == 0 { a.id } else { b.id },
        model: if b.model.len() == 0 { a.model } else { b.model },
        role: if b.role.len() == 0 { a.role } else { b.role },
        stop_reason: if b.stop_reason is Some { b.stop_reason } else { a.stop_reason },
        stop_sequence: if b.stop_sequence is Some { b.stop_sequence } else { a.stop_sequence },
        usage: usage_merged(a.usage, b.usage),
    }
}

/// Whether merging the usage `b` into `a` stays within the 64-bit counters.
pub open spec fn usage_merge_fits(a: Option<TokenCount>, b: Option<TokenCount>) -> bool {
    match (a, b) {
        (Some(x), Some(y)) => count_sum(x, y).input <= u64::MAX && count_sum(x, y).output
            <= u64::MAX,
        _ => true,
    }
}

/// Merging usages does not depend on the order: the merge is commutative.
pub proof fn usage_merge_commutes(a: Option<TokenCount>, b: Option<TokenCount>)
    ensures
        usage_merged(a, b) == usage_merged(b, a),
{
}

/// Merging usages does not depend on the grouping: the merge is associative.
pub proof fn usage_merge_associates(
    a: Option<TokenCount>,
    b: Option<TokenCount>,
    c: Option<TokenCount>,
)
    ensures
        usage_merged(usage_merged(a, b), c) == usage_merged(a, usage_merged(b, c)),
{
}

/// Two partial messages merged into a message in either order leave the same
/// usage behind.
pub proof fn delta_order_keeps_usage(m: MessageModel, d1: MessageModel, d2: MessageModel)
    ensures
        merged(merged(m, d1), d2).usage == merged(merged(m, d2), d1).usage,
{
    usage_merge_associates(m.usage, d1.usage, d2.usage);
    usage_merge_associates(m.usage, d2.usage, d1.usage);
    usage_merge_commutes(d1.usage, d2.usage);
}

impl Default for MessagesResponse {
    fn default() -> (r: MessagesResponse)
        ensures
            r@ == empty_message(),
    {
        let r = MessagesResponse {
            content: Vec::new(),
            id: String::new(),
            model: String::new(),
            role: String::new(),
            stop_reason: None,
            stop_sequence: None,
            usage: None,
        };
        assert(r@.content =~= seq![]);
        r
    }
}

impl MessagesResponse {
    /// Merges the partial message `other` into this one (see `merged`).
    pub fn extend(&mut self, other: Self)
        requires
            usage_merge_fits(old(self)@.usage, other@.usage),
        ensures
            final(self)@ == merged(old(self)@, other@),
    {
        let mut other = other;
        let ghost old_content = self.content@;
        let ghost new_content = other.content@;
        self.content.append(&mut other.content);
        assert(self.content@.map_values(|c: Content| c@) =~= old_content.map_values(
            |c: Content| c@,
        ) + new_content.map_values(|c: Content| c@));
        if !other.id.as_str().is_empty() {
            self.id = other.id;
        }
        if !other.model.as_str().is_empty() {
            self.model = other.model;
        }
        if !other.role.as_str().is_empty() {
            self.role = other.role;
        }
        if other.stop_reason.is_some() {
            self.stop_reason = other.stop_reason;
        }
        if other.stop_sequence.is_some() {
            self.stop_sequence = other.stop_sequence;
        }
        if let Some(incoming) = other.usage {
            match self.usage {
                Some(current) => {
                    let mut total = current;
                    total.extend(incoming);
                    self.usage = Some(total);
                },
                None => {
                    self.usage = Some(incoming);
                },
            }
        }
    }

    /// Whether `extend` with `other` stays within the usage counters.
    pub fn can_extend(&self, other: &Self) -> (r: bool)
        ensures
            r == usage_merge_fits(self@.usage, other@.usage),
    {
        match (&self.usage, &other.usage) {
            (Some(a), Some(b)) => a.can_extend(b),
            _ => true,
        }
    }
}

} // verus!
