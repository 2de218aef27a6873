//! What backends draw.
use crate::strs::{concat, copy_text, push_char, same_text};
use vstd::prelude::*;

verus! {

/// A texture of a backend.
#[derive(Clone, Copy, Debug, PartialEq, Eq, Hash, Structural)]
pub struct TextureId(pub u64);

/// The size of a texture in pixels.
#[derive(Clone, Copy, Debug, PartialEq, Eq, Structural)]
pub struct TextureInfo {
    pub width: u32,
    pub height: u32,
}

/// How a picture is laid over what is below it.
#[derive(Clone, Copy, Debug, PartialEq, Eq, Structural)]
pub enum BlendMode {
    Alpha,
    /// Colours are multiplied by their opacity already.
    PremultipliedAlpha,
    /// As before, and added.
    PremultipliedAdd,
    Add,
    Screen,
    Multiply,
}

impl Default for BlendMode {
    fn default() -> (out: Self)
        ensures
            out == BlendMode::Alpha,
    {
        BlendMode::Alpha
    }
}

/// What a backend was handed to make a texture of, and what it made.
pub struct UploadRecord {
    pub name: Seq<char>,
    pub width: u32,
    pub height: u32,
    pub data: Seq<u8>,
    /// Whether the data is DXT5 blocks rather than RGBA pixels.
    pub blocks: bool,
    pub made: Option<(TextureId, TextureInfo)>,
}

/// An account of uploads with one more.
pub open spec fn with_upload(
    account: Option<Seq<UploadRecord>>,
    upload: UploadRecord,
) -> Option<Seq<UploadRecord>> {
    match account {
        Some(uploads) => Some(uploads.push(upload)),
        None => None,
    }
}

/// An account after pixels were handed over, of which `made` was made.
pub open spec fn pixels_handed(
    account: Option<Seq<UploadRecord>>,
    name: Seq<char>,
    width: u32,
    height: u32,
    data: Seq<u8>,
    made: Option<(TextureId, TextureInfo)>,
) -> Option<Seq<UploadRecord>> {
    with_upload(account, UploadRecord { name, width, height, data, blocks: false, made })
}

/// An account after DXT5 blocks were handed over, of which `made` was made.
pub open spec fn blocks_handed(
    account: Option<Seq<UploadRecord>>,
    name: Seq<char>,
    width: u32,
    height: u32,
    data: Seq<u8>,
    made: Option<(TextureId, TextureInfo)>,
) -> Option<Seq<UploadRecord>> {
    with_upload(account, UploadRecord { name, width, height, data, blocks: true, made })
}

/// Textures by the names of resources. A backend that keeps pixels implements
/// more than the methods without a body.
pub trait TextureProvider {
    /// The account of everything that the backend was handed, in order. A backend
    /// need not keep one; one that does enters every upload.
    open spec fn account(&self) -> Option<Seq<UploadRecord>> {
        None
    }

    /// The texture of a resource.
    fn resolve(&mut self, name: &str) -> Option<(TextureId, TextureInfo)>;

    /// Makes a texture of RGBA pixels.
    fn upload_rgba(&mut self, name: &str, width: u32, height: u32, data: &[u8]) -> (made: Option<
        (TextureId, TextureInfo),
    >)
        ensures
            final(self).account() == pixels_handed(
                old(self).account(),
                name@,
                width,
                height,
                data@,
                made,
            ),
    ;

    /// Makes a texture of pixels that are only drawn.
    fn upload_rgba_render_only(
        &mut self,
        name: &str,
        width: u32,
        height: u32,
        data: &[u8],
    ) -> (made: Option<(TextureId, TextureInfo)>)
        ensures
            final(self).account() == pixels_handed(
                old(self).account(),
                name@,
                width,
                height,
                data@,
                made,
            ),
    {
        self.upload_rgba(name, width, height, data)
    }

    /// Makes a texture of DXT5 blocks that are only drawn. A backend without such
    /// textures makes none.
    fn upload_dxt5_render_only(
        &mut self,
        name: &str,
        width: u32,
        height: u32,
        data: &[u8],
    ) -> (made: Option<(TextureId, TextureInfo)>)
        ensures
            final(self).account() == blocks_handed(
                old(self).account(),
                name@,
                width,
                height,
                data@,
                made,
            ),
    ;

    /// The opacity of a pixel, where pixels are kept.
    fn pixel_alpha(&self, _texture: TextureId, _x: u32, _y: u32) -> Option<u8> {
        None
    }

    /// Drops every texture but those named.
    fn retain(&mut self, _names: &Vec<String>) {
    }

    /// A texture of one pixel of a colour.
    fn solid_texture(&mut self, rgba: [u8; 4]) -> Option<(TextureId, TextureInfo)> {
        let name = solid_texture_name(rgba);
        self.upload_rgba(name.as_str(), 1, 1, &rgba)
    }

    /// The texture of a resource under a mask; the mask is left out where
    /// pixels are not kept.
    fn resolve_with_mask(&mut self, file: &str, _mask: &str) -> Option<(TextureId, TextureInfo)> {
        self.resolve(file)
    }

    /// The size and the pixels of a resource, where they are kept.
    fn pixels_of(&mut self, _name: &str) -> Option<(u32, u32, Vec<u8>)> {
        None
    }
}

/// A hexadecimal digit in lower case.
pub open spec fn hex_digit(n: u8) -> char {
    if n < 10 {
        (('0' as u8) + n) as char
    } else {
        (('a' as u8) + n - 10) as char
    }
}

/// A byte as two hexadecimal digits.
pub open spec fn hex_byte(b: u8) -> Seq<char> {
    seq![hex_digit(b / 16), hex_digit(b % 16)]
}

/// Writes a hexadecimal digit.
pub(crate) fn push_digit(text: &mut String, n: u8)
    requires
        n < 16,
    ensures
        final(text)@ == old(text)@.push(hex_digit(n)),
{
    let c = if n < 10 {
        (('0' as u8) + n) as char
    } else {
        (('a' as u8) + (n - 10)) as char
    };
    push_char(text, c);
}

/// Writes a byte as two hexadecimal digits.
pub fn push_hex(text: &mut String, b: u8)
    ensures
        final(text)@ == old(text)@ + hex_byte(b),
{
    push_digit(text, b / 16);
    push_digit(text, b % 16);
    assert(text@ =~= old(text)@ + hex_byte(b));
}

/// The name of the texture of a colour.
pub open spec fn solid_name(rgba: Seq<u8>) -> Seq<char> {
    "__solid_"@ + hex_byte(rgba[0]) + hex_byte(rgba[1]) + hex_byte(rgba[2]) + hex_byte(rgba[3])
        + "__"@
}

/// The name of the texture of a colour.
pub fn solid_texture_name(rgba: [u8; 4]) -> (out: String)
    ensures
        out@ == solid_name(rgba@),
{
    let mut out = copy_text("__solid_");
    push_hex(&mut out, rgba[0]);
    push_hex(&mut out, rgba[1]);
    push_hex(&mut out, rgba[2]);
    push_hex(&mut out, rgba[3]);
    out.append("__");
    out
}

/// The name of the texture of a file under a mask.
pub open spec fn masked_name(file: Seq<char>, mask: Seq<char>) -> Seq<char> {
    file + "\u{1f}mask\u{1f}"@ + mask
}

/// The name of the texture of a file under a mask.
pub fn masked_texture_name(file: &str, mask: &str) -> (out: String)
    ensures
        out@ == masked_name(file@, mask@),
{
    let head = concat(file, "\u{1f}mask\u{1f}");
    concat(head.as_str(), mask)
}

proof fn lemma_hex_digits(a: u8, b: u8)
    requires
        a < 16,
        b < 16,
        hex_digit(a) == hex_digit(b),
    ensures
        a == b,
{
}

/// Different colours have textures of different names.
pub proof fn law_solid_names_differ(a: Seq<u8>, b: Seq<u8>)
    requires
        a.len() == 4,
        b.len() == 4,
        solid_name(a) == solid_name(b),
    ensures
        a == b,
{
    let n = "__solid_"@.len() as int;
    let x = solid_name(a);
    let y = solid_name(b);
    assert forall|i: int| 0 <= i < 4 implies a[i] == b[i] by {
        assert(x[n + 2 * i] == hex_digit(a[i] / 16));
        assert(y[n + 2 * i] == hex_digit(b[i] / 16));
        assert(x[n + 2 * i + 1] == hex_digit(a[i] % 16));
        assert(y[n + 2 * i + 1] == hex_digit(b[i] % 16));
        lemma_hex_digits(a[i] / 16, b[i] / 16);
        lemma_hex_digits(a[i] % 16, b[i] % 16);
    }
    assert(a =~= b);
}

/// Different files, and files under different masks, have textures of different
/// names, as long as no file's name holds the sign that stands before the mask.
pub proof fn law_masked_names_differ(
    file_a: Seq<char>,
    mask_a: Seq<char>,
    file_b: Seq<char>,
    mask_b: Seq<char>,
)
    requires
        !file_a.contains('\u{1f}'),
        !file_b.contains('\u{1f}'),
        masked_name(file_a, mask_a) == masked_name(file_b, mask_b),
    ensures
        file_a == file_b,
        mask_a == mask_b,
{
    reveal_strlit("\u{1f}mask\u{1f}");
    let a = masked_name(file_a, mask_a);
    let b = masked_name(file_b, mask_b);
    assert(a[file_a.len() as int] == '\u{1f}');
    assert(b[file_b.len() as int] == '\u{1f}');
    if file_a.len() < file_b.len() {
        assert(b[file_a.len() as int] == file_b[file_a.len() as int]);
    }
    if file_b.len() < file_a.len() {
        assert(a[file_b.len() as int] == file_a[file_b.len() as int]);
    }
    assert(file_a =~= a.take(file_a.len() as int));
    assert(file_b =~= b.take(file_b.len() as int));
    let n = file_a.len() + "\u{1f}mask\u{1f}"@.len();
    assert(mask_a =~= a.skip(n as int));
    assert(mask_b =~= b.skip(n as int));
}

// ── Stencils ───────────────────────────────────────────────────

/// What a drawn part is called, and the parts that mask it.
#[derive(Debug)]
pub struct StencilMetadata {
    pub namespace: u64,
    pub source_label: String,
    pub mask_labels: Vec<String>,
}

/// A place for the bits of a number with a fraction in the total order of such
/// numbers: a smaller place is a smaller number.
pub open spec fn order_place(bits: u32) -> int {
    if bits < 0x8000_0000 {
        bits as int
    } else {
        0x7fff_ffff - bits
    }
}

/// The place of bits in the total order.
pub fn total_order_key(bits: u32) -> (out: i32)
    ensures
        out == order_place(bits),
{
    if bits < 0x8000_0000 {
        bits as i32
    } else {
        (0x7fff_ffffi64 - bits as i64) as i32
    }
}

/// Whether a part may mask: it has the label, in the same namespace.
pub open spec fn is_mask(
    command: Option<StencilMetadata>,
    namespace: u64,
    label: Seq<char>,
) -> bool {
    command matches Some(s) && s.namespace == namespace && s.source_label@ == label
}

/// The nearest of the first `n` parts that may mask; the first one of several
/// equally near.
pub open spec fn nearest(
    commands: Seq<Option<StencilMetadata>>,
    places: Seq<i32>,
    namespace: u64,
    label: Seq<char>,
    n: int,
) -> Option<int>
    decreases n,
{
    if n <= 0 {
        None
    } else {
        let before = nearest(commands, places, namespace, label, n - 1);
        if is_mask(commands[n - 1], namespace, label) && (before matches Some(k) ==> places[n - 1]
            < places[k]) {
            Some(n - 1)
        } else {
            before
        }
    }
}

/// The nearest part is the nearest: it may mask, none that may is nearer, and
/// none before it is as near. There is none only where no part may mask.
pub proof fn law_nearest_is_nearest(
    commands: Seq<Option<StencilMetadata>>,
    places: Seq<i32>,
    namespace: u64,
    label: Seq<char>,
    n: int,
)
    requires
        0 <= n <= commands.len(),
    ensures
        match nearest(commands, places, namespace, label, n) {
            Some(k) => 0 <= k < n && is_mask(commands[k], namespace, label) && forall|j: int|
                0 <= j < n && is_mask(#[trigger] commands[j], namespace, label) ==> places[k]
                    < places[j] || (places[k] == places[j] && k <= j),
            None => forall|j: int|
                0 <= j < n ==> !is_mask(#[trigger] commands[j], namespace, label),
        },
    decreases n,
{
    if n > 0 {
        law_nearest_is_nearest(commands, places, namespace, label, n - 1);
    }
}

/// The parts that mask one part, label by label.
pub open spec fn masks_of(
    commands: Seq<Option<StencilMetadata>>,
    places: Seq<i32>,
    namespace: u64,
    labels: Seq<String>,
) -> Seq<int>
    decreases labels.len(),
{
    if labels.len() == 0 {
        Seq::empty()
    } else {
        let before = masks_of(commands, places, namespace, labels.drop_last());
        match nearest(commands, places, namespace, labels.last()@, commands.len() as int) {
            Some(k) => before.push(k),
            None => before,
        }
    }
}

/// A part that is drawn under masks: its place among the parts, and the masks'
/// places among the masks.
#[derive(Clone, Copy, Debug, PartialEq, Eq, Structural)]
pub struct StencilGroup {
    pub index: usize,
    pub mask_start: usize,
    pub mask_end: usize,
}

/// The masks of the first `n` parts, behind one another.
pub open spec fn all_masks(
    commands: Seq<Option<StencilMetadata>>,
    places: Seq<Seq<i32>>,
    n: int,
) -> Seq<int>
    decreases n,
{
    if n <= 0 {
        Seq::empty()
    } else {
        let before = all_masks(commands, places, n - 1);
        match commands[n - 1] {
            Some(s) => before + masks_of(commands, places[n - 1], s.namespace, s.mask_labels@),
            None => before,
        }
    }
}

/// The groups of the first `n` parts, where `taken` masks are there already. A
/// part without masks has none.
pub open spec fn all_groups(
    commands: Seq<Option<StencilMetadata>>,
    places: Seq<Seq<i32>>,
    taken: nat,
    n: int,
) -> Seq<StencilGroup>
    decreases n,
{
    if n <= 0 {
        Seq::empty()
    } else {
        let before = all_groups(commands, places, taken, n - 1);
        let start = taken + all_masks(commands, places, n - 1).len();
        let end = taken + all_masks(commands, places, n).len();
        if end > start {
            before.push(
                StencilGroup {
                    index: (n - 1) as usize,
                    mask_start: start as usize,
                    mask_end: end as usize,
                },
            )
        } else {
            before
        }
    }
}

/// The masks of a frame, and the parts drawn under them.
pub struct StencilPlan {
    /// For each mask the part that it copies, drawn plainly.
    pub masks: Vec<usize>,
    pub groups: Vec<StencilGroup>,
}

/// The places of parts as whole numbers.
pub open spec fn indices(masks: Seq<usize>) -> Seq<int> {
    Seq::new(masks.len(), |i: int| masks[i] as int)
}

/// The places of all parts as seen from each part.
pub open spec fn place_rows(places: Seq<Vec<i32>>) -> Seq<Seq<i32>> {
    Seq::new(places.len(), |i: int| places[i]@)
}

fn find_nearest(
    commands: &Vec<Option<StencilMetadata>>,
    places: &Vec<i32>,
    namespace: u64,
    label: &str,
) -> (out: Option<usize>)
    requires
        places@.len() == commands@.len(),
    ensures
        match out {
            Some(k) => k < commands@.len() && nearest(
                commands@,
                places@,
                namespace,
                label@,
                commands@.len() as int,
            ) == Some(k as int),
            None => nearest(commands@, places@, namespace, label@, commands@.len() as int) is None,
        },
{
    let mut best: Option<usize> = None;
    let mut i: usize = 0;
    while i < commands.len()
        invariant
            i <= commands.len(),
            places@.len() == commands@.len(),
            match best {
                Some(k) => k < i && nearest(commands@, places@, namespace, label@, i as int)
                    == Some(k as int),
                None => nearest(commands@, places@, namespace, label@, i as int) is None,
            },
        decreases commands.len() - i,
    {
        let fits = match &commands[i] {
            Some(s) => s.namespace == namespace && same_text(s.source_label.as_str(), label),
            None => false,
        };
        let nearer = match best {
            Some(k) => places[i] < places[k],
            None => true,
        };
        if fits && nearer {
            best = Some(i);
        }
        i += 1;
    }
    best
}

/// Finds the masks of every part that has mask labels. `places` holds, for each
/// part, how far every part lies from it, as places in the order of distances;
/// `taken` is the number of masks that are there already.
pub fn materialize_stencil_groups(
    commands: &Vec<Option<StencilMetadata>>,
    places: &Vec<Vec<i32>>,
    taken: usize,
) -> (out: StencilPlan)
    requires
        places@.len() == commands@.len(),
        forall|i: int|
            0 <= i < places@.len() ==> (#[trigger] places@[i])@.len() == commands@.len(),
        taken + all_masks(commands@, place_rows(places@), commands@.len() as int).len()
            <= usize::MAX,
    ensures
        indices(out.masks@) == all_masks(commands@, place_rows(places@), commands@.len() as int),
        out.groups@ == all_groups(
            commands@,
            place_rows(places@),
            taken as nat,
            commands@.len() as int,
        ),
{
    let ghost rows = place_rows(places@);
    let ghost all = all_masks(commands@, rows, commands@.len() as int);
    let mut masks: Vec<usize> = Vec::new();
    let mut groups: Vec<StencilGroup> = Vec::new();
    let mut i: usize = 0;
    assert(indices(masks@) =~= Seq::empty());
    while i < commands.len()
        invariant
            i <= commands.len(),
            places@.len() == commands@.len(),
            forall|j: int|
                0 <= j < places@.len() ==> (#[trigger] places@[j])@.len() == commands@.len(),
            rows == place_rows(places@),
            all == all_masks(commands@, rows, commands@.len() as int),
            taken + all.len() <= usize::MAX,
            indices(masks@) == all_masks(commands@, rows, i as int),
            groups@ == all_groups(commands@, rows, taken as nat, i as int),
        decreases commands.len() - i,
    {
        proof {
            lemma_masks_grow(commands@, rows, i + 1);
            assert(rows[i as int] == places@[i as int]@);
            assert(indices(masks@).len() == masks@.len());
        }
        let start: usize = masks.len();
        if let Some(s) = &commands[i] {
            let ghost before = indices(masks@);
            let ghost labels = s.mask_labels@;
            let mut k: usize = 0;
            proof {
                assert(labels.take(0) =~= Seq::empty());
                assert(before + Seq::<int>::empty() =~= before);
            }
            while k < s.mask_labels.len()
                invariant
                    k <= s.mask_labels.len(),
                    labels == s.mask_labels@,
                    i < commands.len(),
                    places@.len() == commands@.len(),
                    places@[i as int]@.len() == commands@.len(),
                    indices(masks@) == before + masks_of(
                        commands@,
                        places@[i as int]@,
                        s.namespace,
                        labels.take(k as int),
                    ),
                decreases s.mask_labels.len() - k,
            {
                assert(labels.take(k + 1).drop_last() =~= labels.take(k as int));
                assert(labels.take(k + 1).last() == labels[k as int]);
                let ghost here = masks@;
                match find_nearest(
                    commands,
                    &places[i],
                    s.namespace,
                    s.mask_labels[k].as_str(),
                ) {
                    Some(at) => {
                        masks.push(at);
                        assert(indices(masks@) =~= indices(here).push(at as int));
                    },
                    None => {},
                }
                k += 1;
                assert(indices(masks@) =~= before + masks_of(
                    commands@,
                    places@[i as int]@,
                    s.namespace,
                    labels.take(k as int),
                ));
            }
            assert(labels.take(k as int) =~= labels);
        }
        assert(indices(masks@) == all_masks(commands@, rows, i + 1));
        assert(indices(masks@).len() == masks@.len());
        let end: usize = masks.len();
        if end > start {
            groups.push(
                StencilGroup { index: i, mask_start: taken + start, mask_end: taken + end },
            );
        }
        i += 1;
    }
    StencilPlan { masks, groups }
}

proof fn lemma_masks_grow(commands: Seq<Option<StencilMetadata>>, places: Seq<Seq<i32>>, n: int)
    requires
        0 <= n <= commands.len(),
    ensures
        all_masks(commands, places, n).len() <= all_masks(
            commands,
            places,
            commands.len() as int,
        ).len(),
    decreases commands.len() - n,
{
    if n < commands.len() {
        lemma_masks_grow(commands, places, n + 1);
    }
}

// ── What a backend is handed ───────────────────────────────────

/// An account of uploads grows by one for each, behind those before it, and tells
/// pixels from blocks. A backend without an account has none afterwards.
pub proof fn law_uploads_are_entered(
    account: Option<Seq<UploadRecord>>,
    name: Seq<char>,
    width: u32,
    height: u32,
    data: Seq<u8>,
    made: Option<(TextureId, TextureInfo)>,
)
    ensures
        account is None ==> pixels_handed(account, name, width, height, data, made) is None
            && blocks_handed(account, name, width, height, data, made) is None,
        account matches Some(log) ==> pixels_handed(account, name, width, height, data, made)
            == Some(
            log.push(UploadRecord { name, width, height, data, blocks: false, made }),
        ) && blocks_handed(account, name, width, height, data, made) == Some(
            log.push(UploadRecord { name, width, height, data, blocks: true, made }),
        ),
{
}

/// A byte is written as two hexadecimal digits in small letters, the high one
/// first.
pub proof fn law_bytes_are_hexadecimal(high: u8, low: u8)
    requires
        high < 16,
        low < 16,
    ensures
        hex_byte((16 * high + low) as u8) == seq!["0123456789abcdef"@[high as int], "0123456789abcdef"@[low as int]],
{
    reveal_strlit("0123456789abcdef");
    assert((16 * high + low) / 16 == high);
    assert((16 * high + low) % 16 == low);
}

/// The texture of a colour is named by its four bytes, in hexadecimal.
pub proof fn law_colours_name_their_textures(rgba: Seq<u8>)
    ensures
        solid_name(rgba) == "__solid_"@ + hex_byte(rgba[0]) + hex_byte(rgba[1]) + hex_byte(rgba[2])
            + hex_byte(rgba[3]) + "__"@,
{
}

/// The places of numbers with a fraction are those of their total order: positive
/// ones by their bits, negative ones, which have the highest bit, against them and
/// before all positive ones.
pub proof fn law_places_are_ordered(a: u32, b: u32)
    ensures
        a < 0x8000_0000 && b < 0x8000_0000 ==> (order_place(a) < order_place(b) <==> a < b),
        a >= 0x8000_0000 && b >= 0x8000_0000 ==> (order_place(a) < order_place(b) <==> a > b),
        a >= 0x8000_0000 && b < 0x8000_0000 ==> order_place(a) < order_place(b),
        i32::MIN <= order_place(a) <= i32::MAX,
{
}

/// A part masks another where it has one of the labels that the other asks for,
/// in the same namespace; for each label, in their order, the nearest one does.
pub proof fn law_masks_have_the_labels(
    commands: Seq<Option<StencilMetadata>>,
    places: Seq<i32>,
    namespace: u64,
    labels: Seq<String>,
    label: String,
    command: Option<StencilMetadata>,
)
    ensures
        is_mask(command, namespace, label@) <==> command is Some && command->0.namespace == namespace
            && command->0.source_label@ == label@,
        masks_of(commands, places, namespace, Seq::empty()).len() == 0,
        ({
            let found = nearest(commands, places, namespace, label@, commands.len() as int);
            masks_of(commands, places, namespace, labels.push(label)) == (match found {
                Some(k) => masks_of(commands, places, namespace, labels).push(k),
                None => masks_of(commands, places, namespace, labels),
            })
        }),
{
    assert(labels.push(label).drop_last() =~= labels);
}

/// A part is drawn under masks exactly where it has some, and its group covers its
/// own masks and no others. Groups come in the order of the parts.
pub proof fn law_groups_cover_their_masks(
    commands: Seq<Option<StencilMetadata>>,
    places: Seq<Seq<i32>>,
    taken: nat,
    n: int,
    part: int,
)
    requires
        0 <= part < n <= commands.len(),
        taken + all_masks(commands, places, n).len() <= usize::MAX,
        commands.len() <= usize::MAX,
    ensures
        ({
            let own = match commands[part] {
                Some(s) => masks_of(commands, places[part], s.namespace, s.mask_labels@),
                None => Seq::empty(),
            };
            let groups = all_groups(commands, places, taken, n);
            let masks = all_masks(commands, places, n);
            &&& own.len() > 0 ==> exists|g: int|
                0 <= g < groups.len() && (#[trigger] groups[g]).index == part
                    && groups[g].mask_start >= taken && groups[g].mask_end == groups[g].mask_start
                    + own.len() && groups[g].mask_end - taken <= masks.len() && masks.subrange(
                    groups[g].mask_start - taken,
                    groups[g].mask_end - taken,
                ) == own
            &&& own.len() == 0 ==> forall|g: int|
                0 <= g < groups.len() ==> (#[trigger] groups[g]).index != part
        }),
    decreases n,
{
    let own = match commands[part] {
        Some(s) => masks_of(commands, places[part], s.namespace, s.mask_labels@),
        None => Seq::empty(),
    };
    let before = all_groups(commands, places, taken, n - 1);
    let groups = all_groups(commands, places, taken, n);
    let short = all_masks(commands, places, n - 1);
    let masks = all_masks(commands, places, n);
    assert(short.len() <= masks.len());
    assert(masks.take(short.len() as int) =~= short);
    lemma_groups_name_earlier_parts(commands, places, taken, n - 1);
    if part < n - 1 {
        law_groups_cover_their_masks(commands, places, taken, n - 1, part);
        if own.len() > 0 {
            let g = choose|g: int|
                0 <= g < before.len() && (#[trigger] before[g]).index == part
                    && before[g].mask_start >= taken && before[g].mask_end == before[g].mask_start
                    + own.len() && before[g].mask_end - taken <= short.len() && short.subrange(
                    before[g].mask_start - taken,
                    before[g].mask_end - taken,
                ) == own;
            assert(groups[g] == before[g]);
            assert(masks.subrange(before[g].mask_start - taken, before[g].mask_end - taken)
                =~= own);
        } else {
            assert forall|g: int| 0 <= g < groups.len() implies (#[trigger] groups[g]).index
                != part by {
                if g < before.len() {
                    assert(groups[g] == before[g]);
                }
            }
        }
    } else if own.len() > 0 {
        assert(masks =~= short + own);
        let g = before.len() as int;
        assert(groups[g].index == part);
        assert(masks.subrange(groups[g].mask_start - taken, groups[g].mask_end - taken) =~= own);
    } else {
        assert(masks =~= short);
        assert forall|g: int| 0 <= g < groups.len() implies (#[trigger] groups[g]).index != part by {
            assert(groups[g] == before[g]);
        }
    }
}

proof fn lemma_groups_name_earlier_parts(
    commands: Seq<Option<StencilMetadata>>,
    places: Seq<Seq<i32>>,
    taken: nat,
    n: int,
)
    requires
        0 <= n <= commands.len() <= usize::MAX,
    ensures
        forall|g: int|
            0 <= g < all_groups(commands, places, taken, n).len() ==> (#[trigger] all_groups(
                commands,
                places,
                taken,
                n,
            )[g]).index < n,
    decreases n,
{
    if n > 0 {
        lemma_groups_name_earlier_parts(commands, places, taken, n - 1);
        let before = all_groups(commands, places, taken, n - 1);
        let groups = all_groups(commands, places, taken, n);
        assert forall|g: int| 0 <= g < groups.len() implies (#[trigger] groups[g]).index < n by {
            if g < before.len() {
                assert(groups[g] == before[g]);
            }
        }
    }
}

} // verus!
