//! One player request, from its identifier to its answer, as a state machine.
//! The caller performs each fetch, read or parse that the machine asks for and
//! hands back what came of it; the machine decides everything else.
use crate::framing::{
    append_parts, decode_parts, encode_parts, lemma_decode_encode, lemma_encode_concat, parts_fit_prefix, parts_view,
    BatchBuilder,
};
use crate::imaging::{extract_head_rgb, extract_image_rgb, head_rgb_of, image_rgb_of};
use crate::models::{MojangSessionResponse, MojangUuidResponse, ProfileProperty, TextureData, TexturesDecoded};
use crate::mojang::{
    has_textures, image_fetch_status, is_first_textures, mojang_profile_url, mojang_uuid_url,
    profile_fetch_status, profile_from_fetch, profile_url, resolve_uuid, take_textures_property,
    uuid_from_lookup, uuid_lookup_status, uuid_url, UuidSource,
};
use crate::reply::{
    build_json_response, is_binary_reply, is_error_reply, json_error, JsonBody, MediaType, Reply,
    ReplyBody, CACHE_MAX_AGE,
};
use crate::request::{needs_images, parts_need_images, PartKind, ProfileOptions};
use crate::text::without_dashes;
use crate::textures::{base64_standard_decode, decode_textures_b64, textures_from_json};
use vstd::prelude::*;

verus! {

/// Which answer a request wants.
pub enum Route {
    /// The profile: uuid, username and signed textures.
    Profile(ProfileOptions),
    /// The cape image, as PNG.
    Cape,
    /// The listed parts, framed one after the other.
    Batch(Vec<PartKind>),
}

/// The kind of a route, without its data.
#[derive(Clone, Copy, PartialEq, Eq, Structural)]
pub enum RouteKind {
    Profile,
    Cape,
    Batch,
}

/// What an image being fetched is for.
#[derive(Clone, Copy, PartialEq, Eq, Structural)]
pub enum ImageUse {
    /// the answer of a cape request
    CapeRoute,
    /// the skin of a batch, shared by its head and skin parts
    BatchSkin,
    /// a cape part of a batch
    BatchCape,
}

/// Where a request stands.
#[derive(Clone, Copy, PartialEq, Eq, Structural)]
pub enum Stage {
    /// awaiting the status of the username lookup
    UuidStatus,
    /// awaiting the parsed body of the username lookup
    UuidBody,
    /// awaiting the status of the profile fetch
    ProfileStatus,
    /// awaiting the parsed body of the profile fetch
    ProfileBody,
    /// awaiting the parsed textures document
    Textures,
    /// awaiting the status of an image fetch
    ImageStatus(ImageUse),
    /// awaiting the bytes of an image
    ImageBody(ImageUse),
    /// working through the parts of a batch (never seen between events)
    Running,
    /// answered
    Done,
}

/// What the machine asks its caller to do next.
pub enum Action {
    /// GET this URL, then hand back its status with `Event::Status`.
    Fetch(String),
    /// Parse the body of the last fetch as a username lookup; hand back `Event::Uuid`.
    ReadUuid,
    /// Parse the body of the last fetch as a session profile; hand back `Event::Profile`.
    ReadProfile,
    /// Parse these bytes as a textures document; hand back `Event::Textures`.
    ParseTextures(Vec<u8>),
    /// Read the body of the last fetch as bytes; hand back `Event::Image`.
    ReadImage,
    /// Answer the request with this; the machine is done.
    Respond(Reply),
}

/// What the caller hands back. A body that could not be parsed is `None`.
pub enum Event {
    Status(u16),
    Uuid(Option<MojangUuidResponse>),
    Profile(Option<MojangSessionResponse>),
    Textures(Option<TexturesDecoded>),
    Image(Vec<u8>),
}

/// What is known of the player: uuid, username, textures value and signature.
pub type PlayerInfo = (Seq<char>, Seq<char>, Seq<char>, Seq<char>);

/// The UTF-8 bytes of a text.
pub open spec fn utf8(s: Seq<char>) -> Seq<u8> {
    vstd::utf8::encode_utf8(s)
}

/// The frames one part of a batch contributes, given the image it was made from.
pub open spec fn part_frames(kind: PartKind, info: PlayerInfo, image: Seq<u8>) -> Seq<Seq<u8>> {
    match kind {
        PartKind::Profile => seq![utf8(info.0), utf8(info.1), utf8(info.2), utf8(info.3)],
        PartKind::Texture => seq![utf8(info.2), utf8(info.3)],
        PartKind::Head => seq![head_rgb_of(image).unwrap()],
        PartKind::Skin => seq![image_rgb_of(image).unwrap()],
        PartKind::Cape => seq![image_rgb_of(image).unwrap()],
        PartKind::Other => Seq::empty(),
    }
}

/// The frames of the first `n` parts of a batch, in order; `images[j]` is the
/// image part `j` was made from.
pub open spec fn batch_frames(parts: Seq<PartKind>, info: PlayerInfo, images: Seq<Seq<u8>>, n: nat) -> Seq<Seq<u8>>
    decreases n,
{
    if n == 0 {
        Seq::empty()
    } else {
        batch_frames(parts, info, images, (n - 1) as nat) + part_frames(parts[n - 1], info, images[n - 1])
    }
}

/// The part is made from the player's skin.
pub open spec fn uses_skin(kind: PartKind) -> bool {
    kind == PartKind::Head || kind == PartKind::Skin
}

/// The skin-made part can be extracted from `image`.
pub open spec fn skin_image_ok(kind: PartKind, image: Seq<u8>) -> bool {
    if kind == PartKind::Head {
        head_rgb_of(image) is Some
    } else {
        image_rgb_of(image) is Some
    }
}

/// Where the skin of the decoded textures is, if it has one.
pub open spec fn skin_url(tx: Option<TexturesDecoded>) -> Option<Seq<char>> {
    match tx {
        Some(t) => match t.textures.skin {
            Some(s) => Some(s.url@),
            None => None,
        },
        None => None,
    }
}

/// Where the cape of the decoded textures is, if it has one.
pub open spec fn cape_url(tx: Option<TexturesDecoded>) -> Option<Seq<char>> {
    match tx {
        Some(t) => match t.textures.cape {
            Some(c) => Some(c.url@),
            None => None,
        },
        None => None,
    }
}

/// The skin bytes, or nothing when the skin has not been fetched.
pub open spec fn skin_bytes(skin: Option<Seq<u8>>) -> Seq<u8> {
    match skin {
        Some(s) => s,
        None => Seq::empty(),
    }
}

/// `images` extended up to part `upto`: skin-made parts get the skin, others nothing.
pub open spec fn extend_images(parts: Seq<PartKind>, images: Seq<Seq<u8>>, skin: Seq<u8>, upto: int) -> Seq<Seq<u8>> {
    images + Seq::new(
        (upto - images.len()) as nat,
        |j: int| if uses_skin(parts[images.len() + j]) { skin } else { Seq::<u8>::empty() },
    )
}

/// Part `k` of a batch can be added without fetching anything: it is not a cape,
/// the skin it may need is at hand and extracts, and the answer stays within
/// `isize::MAX` bytes.
pub open spec fn part_passes(
    parts: Seq<PartKind>,
    k: int,
    info: PlayerInfo,
    images: Seq<Seq<u8>>,
    tx: Option<TexturesDecoded>,
    skin: Option<Seq<u8>>,
) -> bool {
    let kind = parts[k];
    let kind_ok = if uses_skin(kind) {
        skin_url(tx) is Some && (skin matches Some(s) && skin_image_ok(kind, s))
    } else {
        kind != PartKind::Cape
    };
    let imgs = extend_images(parts, images, skin_bytes(skin), k + 1);
    &&& kind_ok
    &&& parts_fit_prefix(part_frames(kind, info, imgs[k]))
    &&& encode_parts(batch_frames(parts, info, imgs, (k + 1) as nat)).len() <= isize::MAX
}

/// The first part from `k` on that cannot be added without fetching or failing,
/// or the number of parts when there is none.
pub open spec fn batch_stop(
    parts: Seq<PartKind>,
    info: PlayerInfo,
    images: Seq<Seq<u8>>,
    tx: Option<TexturesDecoded>,
    skin: Option<Seq<u8>>,
    k: int,
) -> int
    decreases parts.len() - k,
{
    if k < 0 || k >= parts.len() {
        parts.len() as int
    } else if part_passes(parts, k, info, images, tx, skin) {
        batch_stop(parts, info, images, tx, skin, k + 1)
    } else {
        k
    }
}

/// The machine has answered with the JSON error `message`, `status`.
pub open spec fn responds_error(stage: Stage, action: Action, message: Seq<char>, status: u16) -> bool {
    stage == Stage::Done && (action matches Action::Respond(r) && is_error_reply(r, message, status))
}

/// What a batch does at a part that it cannot add right away.
pub open spec fn stop_action(
    kind: PartKind,
    tx: Option<TexturesDecoded>,
    skin: Option<Seq<u8>>,
    stage: Stage,
    action: Action,
) -> bool {
    if uses_skin(kind) {
        match skin_url(tx) {
            None => responds_error(stage, action, "player has no skin"@, 404),
            Some(u) => match skin {
                None => stage == Stage::ImageStatus(ImageUse::BatchSkin) && (action matches Action::Fetch(url) && url@ == u),
                Some(s) => if !skin_image_ok(kind, s) {
                    if kind == PartKind::Head {
                        responds_error(stage, action, "failed to parse skin image"@, 502)
                    } else {
                        responds_error(stage, action, "failed to parse image"@, 502)
                    }
                } else {
                    responds_error(stage, action, "response too large"@, 500)
                },
            },
        }
    } else if kind == PartKind::Cape {
        match cape_url(tx) {
            None => responds_error(stage, action, "player has no cape"@, 404),
            Some(u) => stage == Stage::ImageStatus(ImageUse::BatchCape) && (action matches Action::Fetch(url) && url@ == u),
        }
    } else {
        responds_error(stage, action, "response too large"@, 500)
    }
}

/// Working through a batch from the parts already made (`images0`): the machine
/// adds every part it can, in order, and then either answers with all the frames,
/// fetches what the next part needs, or answers with that part's error.
pub open spec fn batch_outcome(
    parts: Seq<PartKind>,
    info: PlayerInfo,
    images0: Seq<Seq<u8>>,
    tx: Option<TexturesDecoded>,
    skin: Option<Seq<u8>>,
    next: int,
    images: Seq<Seq<u8>>,
    stage: Stage,
    action: Action,
) -> bool {
    let k = batch_stop(parts, info, images0, tx, skin, images0.len() as int);
    &&& next == k
    &&& images == extend_images(parts, images0, skin_bytes(skin), k)
    &&& if k == parts.len() {
        &&& stage == Stage::Done
        &&& action matches Action::Respond(r) && is_binary_reply(
            r,
            MediaType::OctetStream,
            encode_parts(batch_frames(parts, info, images, parts.len())),
            true,
        )
    } else {
        stop_action(parts[k], tx, skin, stage, action)
    }
}

/// The frames of a raw profile answer: uuid and username unless excluded, then
/// the textures value and signature.
pub open spec fn profile_parts(opts: ProfileOptions, info: PlayerInfo) -> Seq<Seq<u8>> {
    (if opts.exclude_uuid { Seq::empty() } else { seq![utf8(info.0)] }) + (if opts.exclude_username {
        Seq::empty()
    } else {
        seq![utf8(info.1)]
    }) + seq![utf8(info.2), utf8(info.3)]
}

/// The answer of a profile request, given what is known of the player.
pub open spec fn profile_answer(opts: ProfileOptions, info: PlayerInfo, stage: Stage, action: Action) -> bool {
    if opts.raw {
        if parts_fit_prefix(profile_parts(opts, info)) && encode_parts(profile_parts(opts, info)).len()
            <= isize::MAX {
            stage == Stage::Done && (action matches Action::Respond(r) && is_binary_reply(
                r,
                MediaType::OctetStream,
                encode_parts(profile_parts(opts, info)),
                true,
            ))
        } else {
            responds_error(stage, action, "response too large"@, 500)
        }
    } else {
        &&& stage == Stage::Done
        &&& action matches Action::Respond(r)
        &&& r.status == 200
        &&& r.cache_max_age == Some(CACHE_MAX_AGE)
        &&& r.body matches ReplyBody::Json(JsonBody::Player(p))
        &&& (if opts.exclude_uuid { p.uuid is None } else { p.uuid matches Some(u) && u@ == info.0 })
        &&& (if opts.exclude_username { p.username is None } else { p.username matches Some(n) && n@ == info.1 })
        &&& p.textures.value@ == info.2
        &&& p.textures.signature@ == info.3
    }
}

/// The rank of a stage in the progress measure.
pub open spec fn stage_rank(stage: Stage) -> nat {
    match stage {
        Stage::UuidStatus => 8,
        Stage::UuidBody => 7,
        Stage::ProfileStatus => 6,
        Stage::ProfileBody => 5,
        Stage::Textures => 4,
        Stage::Running => 3,
        Stage::ImageStatus(_) => 2,
        Stage::ImageBody(_) => 1,
        Stage::Done => 0,
    }
}

/// The part of a batch request made from `image` is sound: skin-made parts come from
/// the one fetched skin and extract, cape parts extract.
pub open spec fn processed_ok(kind: PartKind, image: Seq<u8>, skin: Option<Seq<u8>>) -> bool {
    if uses_skin(kind) {
        skin == Some(image) && skin_image_ok(kind, image)
    } else if kind == PartKind::Cape {
        image_rgb_of(image) is Some
    } else {
        true
    }
}

/// One player request in progress.
pub struct PlayerRequest {
    kind: RouteKind,
    options: ProfileOptions,
    parts: Vec<PartKind>,
    stage: Stage,
    uuid: String,
    name: String,
    value: String,
    signature: String,
    textures: Option<TexturesDecoded>,
    builder: BatchBuilder,
    next: usize,
    skin: Option<Vec<u8>>,
    images: Ghost<Seq<Seq<u8>>>,
    skin_fetches: Ghost<nat>,
}

impl PlayerRequest {
    pub closed spec fn stage(&self) -> Stage {
        self.stage
    }

    pub closed spec fn route_kind(&self) -> RouteKind {
        self.kind
    }

    pub closed spec fn options(&self) -> ProfileOptions {
        self.options
    }

    /// The parts of a batch request (empty for other routes).
    pub closed spec fn parts(&self) -> Seq<PartKind> {
        self.parts@
    }

    pub closed spec fn info(&self) -> PlayerInfo {
        (self.uuid@, self.name@, self.value@, self.signature@)
    }

    /// The decoded textures, once known.
    pub closed spec fn textures(&self) -> Option<TexturesDecoded> {
        self.textures
    }

    /// The fetched skin of a batch, once fetched.
    pub closed spec fn skin(&self) -> Option<Seq<u8>> {
        match self.skin {
            Some(s) => Some(s@),
            None => None,
        }
    }

    /// For each batch part added so far, the image it was made from.
    pub closed spec fn images(&self) -> Seq<Seq<u8>> {
        self.images@
    }

    /// The number of batch parts added so far.
    pub closed spec fn next_part(&self) -> int {
        self.next as int
    }

    /// How many times the skin has been asked for.
    pub closed spec fn skin_fetch_count(&self) -> nat {
        self.skin_fetches@
    }

    /// The bytes of the batch built so far.
    pub closed spec fn built(&self) -> Seq<u8> {
        self.builder@
    }

    /// Decreases with every event until the request is answered.
    pub open spec fn measure(&self) -> nat {
        stage_rank(self.stage()) + 3 * ((self.parts().len() - self.next_part()) as nat)
    }

    /// The machine's invariant.
    pub closed spec fn wf(&self) -> bool {
        let awaiting_skin = self.stage == Stage::ImageStatus(ImageUse::BatchSkin) || self.stage
            == Stage::ImageBody(ImageUse::BatchSkin);
        let awaiting_cape_part = self.stage == Stage::ImageStatus(ImageUse::BatchCape) || self.stage
            == Stage::ImageBody(ImageUse::BatchCape);
        let awaiting_cape = self.stage == Stage::ImageStatus(ImageUse::CapeRoute) || self.stage
            == Stage::ImageBody(ImageUse::CapeRoute);
        let before_textures = self.stage == Stage::UuidStatus || self.stage == Stage::UuidBody
            || self.stage == Stage::ProfileStatus || self.stage == Stage::ProfileBody || self.stage
            == Stage::Textures;
        &&& self.next <= self.parts@.len()
        &&& self.images@.len() == self.next
        &&& self.stage != Stage::Done ==> self.builder@ == encode_parts(
            batch_frames(self.parts@, self.info(), self.images@, self.next as nat),
        )
        &&& self.stage != Stage::Done ==> self.builder@.len() <= isize::MAX
        &&& forall|j: int|
            0 <= j < self.next ==> #[trigger] processed_ok(self.parts@[j], self.images@[j], self.skin())
        &&& self.skin_fetches@ <= 1
        &&& self.skin is Some ==> self.skin_fetches@ == 1
        &&& awaiting_skin ==> {
            &&& self.skin is None
            &&& self.skin_fetches@ == 1
            &&& self.kind == RouteKind::Batch
            &&& self.next < self.parts@.len()
            &&& uses_skin(self.parts@[self.next as int])
            &&& skin_url(self.textures) is Some
        }
        &&& (self.skin_fetches@ == 1 && self.stage != Stage::Done) ==> (self.skin is Some || awaiting_skin)
        &&& awaiting_cape_part ==> self.kind == RouteKind::Batch && self.next < self.parts@.len()
            && self.parts@[self.next as int] == PartKind::Cape
        &&& awaiting_cape ==> self.kind == RouteKind::Cape
        &&& self.stage == Stage::Running ==> self.kind == RouteKind::Batch
        &&& before_textures ==> self.next == 0 && self.skin is None && self.skin_fetches@ == 0
            && self.textures is None
        &&& self.stage == Stage::Textures ==> (self.kind == RouteKind::Cape || self.kind == RouteKind::Batch)
    }

    /// The event that the machine awaits in its stage.
    pub open spec fn accepts(&self, event: Event) -> bool {
        match self.stage() {
            Stage::UuidStatus | Stage::ProfileStatus | Stage::ImageStatus(_) => event is Status,
            Stage::UuidBody => event is Uuid,
            Stage::ProfileBody => event is Profile,
            Stage::Textures => event is Textures,
            Stage::ImageBody(_) => event is Image,
            Stage::Running | Stage::Done => false,
        }
    }
}

/// The image arrays of two runs agree on their first `n` entries, so their first
/// `n` parts make the same frames.
proof fn lemma_batch_frames_prefix(
    parts: Seq<PartKind>,
    info: PlayerInfo,
    a: Seq<Seq<u8>>,
    b: Seq<Seq<u8>>,
    n: nat,
)
    requires
        n <= a.len(),
        n <= b.len(),
        forall|j: int| 0 <= j < n ==> a[j] == b[j],
    ensures
        batch_frames(parts, info, a, n) == batch_frames(parts, info, b, n),
    decreases n,
{
    if n > 0 {
        lemma_batch_frames_prefix(parts, info, a, b, (n - 1) as nat);
        assert(a[n - 1] == b[n - 1]);
    }
}

/// Extending the images by one more part.
proof fn lemma_extend_step(parts: Seq<PartKind>, images: Seq<Seq<u8>>, skin: Seq<u8>, k: int)
    requires
        images.len() <= k < parts.len(),
    ensures
        extend_images(parts, images, skin, k + 1) == extend_images(parts, images, skin, k).push(
            if uses_skin(parts[k]) { skin } else { Seq::<u8>::empty() },
        ),
        extend_images(parts, images, skin, k).len() == k,
{
    assert(extend_images(parts, images, skin, k + 1) =~= extend_images(parts, images, skin, k).push(
        if uses_skin(parts[k]) { skin } else { Seq::<u8>::empty() },
    ));
}

/// Extending the images to where they already are changes nothing.
proof fn lemma_extend_none(parts: Seq<PartKind>, images: Seq<Seq<u8>>, skin: Seq<u8>)
    ensures
        extend_images(parts, images, skin, images.len() as int) == images,
{
    assert(extend_images(parts, images, skin, images.len() as int) =~= images);
}

/// Parts that pass do not stop a batch.
proof fn lemma_stop_skip(
    parts: Seq<PartKind>,
    info: PlayerInfo,
    images: Seq<Seq<u8>>,
    tx: Option<TexturesDecoded>,
    skin: Option<Seq<u8>>,
    from: int,
    k: int,
)
    requires
        0 <= from <= k <= parts.len(),
        forall|j: int| from <= j < k ==> #[trigger] part_passes(parts, j, info, images, tx, skin),
    ensures
        batch_stop(parts, info, images, tx, skin, from) == batch_stop(parts, info, images, tx, skin, k),
    decreases k - from,
{
    if from < k {
        assert(part_passes(parts, from, info, images, tx, skin));
        lemma_stop_skip(parts, info, images, tx, skin, from + 1, k);
    }
}

/// The frames of one more part follow the frames before it.
proof fn lemma_frames_step(parts: Seq<PartKind>, info: PlayerInfo, images: Seq<Seq<u8>>, k: nat)
    requires
        k < parts.len(),
        k < images.len(),
    ensures
        encode_parts(batch_frames(parts, info, images, k + 1)) == encode_parts(
            batch_frames(parts, info, images, k),
        ) + encode_parts(part_frames(parts[k as int], info, images[k as int])),
{
    lemma_encode_concat(batch_frames(parts, info, images, k), part_frames(parts[k as int], info, images[k as int]));
}

/// The first property named `textures` of a profile.
pub open spec fn textures_property(p: MojangSessionResponse) -> ProfileProperty {
    p.properties@[choose|i: int| is_first_textures(p.properties@, i)]
}

/// Having the textures value, a cape or image batch request asks for its decoded document.
pub open spec fn textures_requested(info: PlayerInfo, stage: Stage, action: Action) -> bool {
    match base64_standard_decode(utf8(info.2)) {
        None => responds_error(stage, action, "failed to decode textures base64"@, 502),
        Some(d) => stage == Stage::Textures && (action matches Action::ParseTextures(j) && j@ == d),
    }
}

/// What follows the arrival of a profile that has a textures property.
pub open spec fn profile_loaded(old: PlayerRequest, p: MojangSessionResponse, new: PlayerRequest, action: Action) -> bool {
    let tex = textures_property(p);
    let info = (old.info().0, p.name@, tex.value@, tex.signature@);
    &&& new.info() == info
    &&& match old.route_kind() {
        RouteKind::Profile => profile_answer(old.options(), info, new.stage(), action),
        RouteKind::Cape => textures_requested(info, new.stage(), action),
        RouteKind::Batch => if needs_images(old.parts()) {
            textures_requested(info, new.stage(), action)
        } else {
            &&& new.textures() is None
            &&& batch_outcome(
                old.parts(),
                info,
                Seq::empty(),
                None,
                None,
                new.next_part(),
                new.images(),
                new.stage(),
                action,
            )
        },
    }
}

/// What follows the arrival of the decoded textures.
pub open spec fn textures_loaded(old: PlayerRequest, t: TexturesDecoded, new: PlayerRequest, action: Action) -> bool {
    &&& new.info() == old.info()
    &&& match old.route_kind() {
        RouteKind::Cape => match t.textures.cape {
            None => responds_error(new.stage(), action, "player has no cape"@, 404),
            Some(c) => new.stage() == Stage::ImageStatus(ImageUse::CapeRoute) && (action matches Action::Fetch(
                url,
            ) && url@ == c.url@),
        },
        _ => {
            &&& new.textures() == Some(t)
            &&& batch_outcome(
                old.parts(),
                old.info(),
                Seq::empty(),
                Some(t),
                None,
                new.next_part(),
                new.images(),
                new.stage(),
                action,
            )
        },
    }
}

/// What follows the arrival of the bytes of an image.
pub open spec fn image_arrived(old: PlayerRequest, u: ImageUse, b: Seq<u8>, new: PlayerRequest, action: Action) -> bool {
    &&& new.info() == old.info()
    &&& match u {
        ImageUse::CapeRoute => new.stage() == Stage::Done && (action matches Action::Respond(r)
            && is_binary_reply(r, MediaType::Png, b, true)),
        ImageUse::BatchSkin => {
            &&& new.skin() == Some(b)
            &&& batch_outcome(
                old.parts(),
                old.info(),
                old.images(),
                old.textures(),
                Some(b),
                new.next_part(),
                new.images(),
                new.stage(),
                action,
            )
        },
        ImageUse::BatchCape => {
            let imgs = old.images().push(b);
            if image_rgb_of(b) is None {
                responds_error(new.stage(), action, "failed to parse image"@, 502)
            } else if !parts_fit_prefix(part_frames(PartKind::Cape, old.info(), b)) || encode_parts(
                batch_frames(old.parts(), old.info(), imgs, (old.next_part() + 1) as nat),
            ).len() > isize::MAX {
                responds_error(new.stage(), action, "response too large"@, 500)
            } else {
                batch_outcome(
                    old.parts(),
                    old.info(),
                    imgs,
                    old.textures(),
                    old.skin(),
                    new.next_part(),
                    new.images(),
                    new.stage(),
                    action,
                )
            }
        },
    }
}

/// How the machine answers each event in each stage.
pub open spec fn transition(old: PlayerRequest, event: Event, new: PlayerRequest, action: Action) -> bool {
    match old.stage() {
        Stage::UuidStatus => match event {
            Event::Status(s) => if s == 204 || s == 404 {
                responds_error(new.stage(), action, "player not found"@, 404)
            } else {
                new.stage() == Stage::UuidBody && action is ReadUuid
            },
            _ => false,
        },
        Stage::UuidBody => match event {
            Event::Uuid(None) => responds_error(new.stage(), action, "failed to parse mojang uuid response"@, 502),
            Event::Uuid(Some(u)) => {
                &&& new.stage() == Stage::ProfileStatus
                &&& new.info().0 == u.id@
                &&& action matches Action::Fetch(url) && url@ == profile_url(u.id@)
            },
            _ => false,
        },
        Stage::ProfileStatus => match event {
            Event::Status(s) => if s == 204 || s == 404 {
                responds_error(new.stage(), action, "player not found"@, 404)
            } else if s != 200 {
                responds_error(new.stage(), action, "failed to fetch profile from mojang"@, 502)
            } else {
                new.stage() == Stage::ProfileBody && action is ReadProfile
            },
            _ => false,
        },
        Stage::ProfileBody => match event {
            Event::Profile(None) => responds_error(new.stage(), action, "failed to parse mojang profile data"@, 502),
            Event::Profile(Some(p)) => if !has_textures(p.properties@) {
                responds_error(new.stage(), action, "texture data missing on profile"@, 404)
            } else {
                profile_loaded(old, p, new, action)
            },
            _ => false,
        },
        Stage::Textures => match event {
            Event::Textures(None) => responds_error(new.stage(), action, "failed to parse textures json"@, 502),
            Event::Textures(Some(t)) => textures_loaded(old, t, new, action),
            _ => false,
        },
        Stage::ImageStatus(u) => match event {
            Event::Status(s) => if s != 200 {
                if u == ImageUse::BatchSkin {
                    responds_error(new.stage(), action, "failed to fetch skin from mojang"@, 502)
                } else {
                    responds_error(new.stage(), action, "failed to fetch cape from mojang"@, 502)
                }
            } else {
                new.stage() == Stage::ImageBody(u) && action is ReadImage
            },
            _ => false,
        },
        Stage::ImageBody(u) => match event {
            Event::Image(b) => image_arrived(old, u, b@, new, action),
            _ => false,
        },
        Stage::Running | Stage::Done => false,
    }
}

/// One step of the machine: what it keeps, that it progresses, how often it has
/// asked for the skin, and how it answers the event.
pub open spec fn step_ok(old: PlayerRequest, event: Event, new: PlayerRequest, action: Action) -> bool {
    &&& new.route_kind() == old.route_kind()
    &&& new.options() == old.options()
    &&& new.parts() == old.parts()
    &&& (action is Respond <==> new.stage() == Stage::Done)
    &&& new.stage() != Stage::Running
    &&& new.measure() < old.measure()
    &&& new.skin_fetch_count() == old.skin_fetch_count() + (if new.stage() == Stage::ImageStatus(
        ImageUse::BatchSkin,
    ) {
        1nat
    } else {
        0nat
    })
    &&& transition(old, event, new, action)
}

/// The request was started for `route`.
pub open spec fn started_for(req: PlayerRequest, route: Route) -> bool {
    match route {
        Route::Profile(o) => req.route_kind() == RouteKind::Profile && req.options() == o,
        Route::Cape => req.route_kind() == RouteKind::Cape,
        Route::Batch(p) => req.route_kind() == RouteKind::Batch && req.parts() == p@,
    }
}

/// The UTF-8 bytes of a string.
fn bytes_of(s: &String) -> (v: Vec<u8>)
    ensures
        v@ == utf8(s@),
{
    vstd::slice::slice_to_vec(s.as_str().as_bytes())
}

/// Where the skin of the decoded textures is.
fn skin_url_of(tx: &Option<TexturesDecoded>) -> (r: Option<String>)
    ensures
        r matches Some(u) ==> skin_url(*tx) == Some(u@),
        r is None ==> skin_url(*tx) is None,
{
    match tx {
        Some(t) => match &t.textures.skin {
            Some(s) => Some(s.url.clone()),
            None => None,
        },
        None => None,
    }
}

/// Where the cape of the decoded textures is.
fn cape_url_of(tx: &Option<TexturesDecoded>) -> (r: Option<String>)
    ensures
        r matches Some(u) ==> cape_url(*tx) == Some(u@),
        r is None ==> cape_url(*tx) is None,
{
    match tx {
        Some(t) => match &t.textures.cape {
            Some(c) => Some(c.url.clone()),
            None => None,
        },
        None => None,
    }
}

impl PlayerRequest {
    /// Answers with `r`; the machine is done.
    fn finish(&mut self, r: Reply) -> (action: Action)
        requires
            old(self).wf(),
        ensures
            final(self).wf(),
            final(self).stage() == Stage::Done,
            action == Action::Respond(r),
            final(self).route_kind() == old(self).route_kind(),
            final(self).options() == old(self).options(),
            final(self).parts() == old(self).parts(),
            final(self).info() == old(self).info(),
            final(self).textures() == old(self).textures(),
            final(self).skin() == old(self).skin(),
            final(self).images() == old(self).images(),
            final(self).next_part() == old(self).next_part(),
            final(self).skin_fetch_count() == old(self).skin_fetch_count(),
    {
        self.stage = Stage::Done;
        Action::Respond(r)
    }

    /// Adds every part it can, from the next one on, then answers, fetches what
    /// the next part needs, or answers with that part's error.
    fn advance_batch(&mut self) -> (action: Action)
        requires
            old(self).wf(),
            old(self).stage() == Stage::Running,
        ensures
            final(self).wf(),
            final(self).stage() != Stage::Running,
            action is Respond <==> final(self).stage() == Stage::Done,
            final(self).route_kind() == old(self).route_kind(),
            final(self).options() == old(self).options(),
            final(self).parts() == old(self).parts(),
            final(self).info() == old(self).info(),
            final(self).textures() == old(self).textures(),
            final(self).skin() == old(self).skin(),
            final(self).skin_fetch_count() == old(self).skin_fetch_count() + (if final(self).stage()
                == Stage::ImageStatus(ImageUse::BatchSkin) {
                1nat
            } else {
                0nat
            }),
            batch_outcome(
                old(self).parts(),
                old(self).info(),
                old(self).images(),
                old(self).textures(),
                old(self).skin(),
                final(self).next_part(),
                final(self).images(),
                final(self).stage(),
                action,
            ),
    {
        let ghost images0 = self.images@;
        let ghost skin0 = self.skin();
        let ghost n0 = self.next as int;
        let ghost info = self.info();
        let ghost tx = self.textures;
        let ghost parts = self.parts@;
        let ghost fetches0 = self.skin_fetches@;
        proof {
            lemma_extend_none(parts, images0, skin_bytes(skin0));
        }
        while self.next < self.parts.len()
            invariant
                self.wf(),
                self.stage == Stage::Running,
                self.kind == old(self).kind,
                self.options == old(self).options,
                self.parts@ == parts,
                self.info() == info,
                self.textures == tx,
                self.skin() == skin0,
                self.skin_fetches@ == fetches0,
                fetches0 == old(self).skin_fetch_count(),
                images0 == old(self).images(),
                skin0 == old(self).skin(),
                info == old(self).info(),
                parts == old(self).parts(),
                tx == old(self).textures(),
                n0 <= self.next,
                images0.len() == n0,
                self.images@ == extend_images(parts, images0, skin_bytes(skin0), self.next as int),
                forall|j: int| n0 <= j < self.next ==> #[trigger] part_passes(parts, j, info, images0, tx, skin0),
            decreases self.parts.len() - self.next,
        {
            let k = self.next;
            let kind = self.parts[k];
            proof {
                lemma_extend_step(parts, images0, skin_bytes(skin0), k as int);
                lemma_stop_skip(parts, info, images0, tx, skin0, n0, k as int);
            }
            let ghost image: Seq<u8> = if uses_skin(kind) { skin_bytes(skin0) } else { Seq::<u8>::empty() };
            let mut frames: Vec<Vec<u8>> = Vec::new();
            if kind == PartKind::Profile {
                frames.push(bytes_of(&self.uuid));
                frames.push(bytes_of(&self.name));
                frames.push(bytes_of(&self.value));
                frames.push(bytes_of(&self.signature));
            } else if kind == PartKind::Texture {
                frames.push(bytes_of(&self.value));
                frames.push(bytes_of(&self.signature));
            } else if kind == PartKind::Head || kind == PartKind::Skin {
                let url = skin_url_of(&self.textures);
                if url.is_none() {
                    return self.finish(json_error("player has no skin", 404));
                }
                let extracted: Option<Result<Vec<u8>, Reply>> = match &self.skin {
                    None => None,
                    Some(bytes) => if kind == PartKind::Head {
                        Some(extract_head_rgb(bytes.as_slice()))
                    } else {
                        Some(extract_image_rgb(bytes.as_slice()))
                    },
                };
                match extracted {
                    None => {
                        self.skin_fetches = Ghost(1);
                        self.stage = Stage::ImageStatus(ImageUse::BatchSkin);
                        return Action::Fetch(url.unwrap());
                    },
                    Some(Err(e)) => {
                        return self.finish(e);
                    },
                    Some(Ok(v)) => {
                        frames.push(v);
                    },
                }
            } else if kind == PartKind::Cape {
                match cape_url_of(&self.textures) {
                    None => {
                        return self.finish(json_error("player has no cape", 404));
                    },
                    Some(u) => {
                        self.stage = Stage::ImageStatus(ImageUse::BatchCape);
                        return Action::Fetch(u);
                    },
                }
            }
            let ghost images_next = self.images@.push(image);
            proof {
                assert(parts_view(frames@) =~= part_frames(kind, info, image));
                lemma_batch_frames_prefix(parts, info, self.images@, images_next, k as nat);
                lemma_frames_step(parts, info, images_next, k as nat);
                lemma_batch_frames_prefix(
                    parts,
                    info,
                    images_next,
                    extend_images(parts, images0, skin_bytes(skin0), k + 1),
                    (k + 1) as nat,
                );
            }
            let ok = append_parts(&mut self.builder, &frames);
            if !ok {
                return self.finish(json_error("response too large", 500));
            }
            self.images = Ghost(images_next);
            self.next = k + 1;
            proof {
                assert(part_passes(parts, k as int, info, images0, tx, skin0));
                assert(processed_ok(parts[k as int], image, skin0));
            }
        }
        proof {
            lemma_stop_skip(parts, info, images0, tx, skin0, n0, self.next as int);
        }
        let mut builder = BatchBuilder::new();
        std::mem::swap(&mut builder, &mut self.builder);
        let reply = builder.build().cached();
        self.stage = Stage::Done;
        Action::Respond(reply)
    }
}

/// The first `textures` property is the only one that is first.
proof fn lemma_first_textures_unique(props: Seq<ProfileProperty>, i: int, j: int)
    requires
        is_first_textures(props, i),
        is_first_textures(props, j),
    ensures
        i == j,
{
    if i < j {
        assert(props[i].name@ != "textures"@);
    } else if j < i {
        assert(props[j].name@ != "textures"@);
    }
}

/// A batch stops at or after where it starts, and at most at its end.
proof fn lemma_stop_bounds(
    parts: Seq<PartKind>,
    info: PlayerInfo,
    images: Seq<Seq<u8>>,
    tx: Option<TexturesDecoded>,
    skin: Option<Seq<u8>>,
    k: int,
)
    requires
        0 <= k <= parts.len(),
    ensures
        k <= batch_stop(parts, info, images, tx, skin, k) <= parts.len(),
    decreases parts.len() - k,
{
    if k < parts.len() && part_passes(parts, k, info, images, tx, skin) {
        lemma_stop_bounds(parts, info, images, tx, skin, k + 1);
    }
}

impl PlayerRequest {
    /// Starts a request for `identifier` on `route`. Without an identifier the
    /// request is answered 400; an identifier of more than 16 bytes is a uuid whose
    /// profile is fetched at once; a shorter one is a username to look up first.
    pub fn start(route: Route, identifier: Option<&str>) -> (res: (PlayerRequest, Action))
        ensures
            res.0.wf(),
            started_for(res.0, route),
            res.0.stage() != Stage::Running,
            res.1 is Respond <==> res.0.stage() == Stage::Done,
            res.0.skin_fetch_count() == 0,
            identifier is None ==> responds_error(res.0.stage(), res.1, "Identifier is required"@, 400),
            identifier matches Some(id) ==> if id.len() > 16 {
                &&& res.0.stage() == Stage::ProfileStatus
                &&& res.0.info().0 == without_dashes(id@)
                &&& res.1 matches Action::Fetch(url) && url@ == profile_url(without_dashes(id@))
            } else {
                &&& res.0.stage() == Stage::UuidStatus
                &&& res.1 matches Action::Fetch(url) && url@ == uuid_url(id@)
            },
    {
        let (kind, options, parts) = match route {
            Route::Profile(o) => (RouteKind::Profile, o, Vec::new()),
            Route::Cape => (
                RouteKind::Cape,
                ProfileOptions { raw: false, exclude_uuid: false, exclude_username: false },
                Vec::new(),
            ),
            Route::Batch(p) => (
                RouteKind::Batch,
                ProfileOptions { raw: false, exclude_uuid: false, exclude_username: false },
                p,
            ),
        };
        let mut req = PlayerRequest {
            kind,
            options,
            parts,
            stage: Stage::UuidStatus,
            uuid: String::new(),
            name: String::new(),
            value: String::new(),
            signature: String::new(),
            textures: None,
            builder: BatchBuilder::new(),
            next: 0,
            skin: None,
            images: Ghost(Seq::empty()),
            skin_fetches: Ghost(0),
        };
        let action = match identifier {
            None => req.finish(json_error("Identifier is required", 400)),
            Some(id) => match resolve_uuid(id) {
                UuidSource::Known(uuid) => {
                    let url = mojang_profile_url(uuid.as_str());
                    req.uuid = uuid;
                    req.stage = Stage::ProfileStatus;
                    Action::Fetch(url)
                },
                UuidSource::Lookup(name) => Action::Fetch(mojang_uuid_url(name.as_str())),
            },
        };
        (req, action)
    }

    /// Whether `event` is what the machine awaits.
    pub fn expects(&self, event: &Event) -> (b: bool)
        ensures
            b == self.accepts(*event),
    {
        match self.stage {
            Stage::UuidStatus | Stage::ProfileStatus | Stage::ImageStatus(_) => match event {
                Event::Status(_) => true,
                _ => false,
            },
            Stage::UuidBody => match event {
                Event::Uuid(_) => true,
                _ => false,
            },
            Stage::ProfileBody => match event {
                Event::Profile(_) => true,
                _ => false,
            },
            Stage::Textures => match event {
                Event::Textures(_) => true,
                _ => false,
            },
            Stage::ImageBody(_) => match event {
                Event::Image(_) => true,
                _ => false,
            },
            Stage::Running | Stage::Done => false,
        }
    }

    /// Whether the request has been answered.
    pub fn is_done(&self) -> (b: bool)
        ensures
            b == (self.stage() == Stage::Done),
    {
        self.stage == Stage::Done
    }

    /// Takes in what the caller did and decides what comes next.
    pub fn step(&mut self, event: Event) -> (action: Action)
        requires
            old(self).wf(),
            old(self).accepts(event),
        ensures
            final(self).wf(),
            step_ok(*old(self), event, *final(self), action),
    {
        match event {
            Event::Status(s) => self.on_status(s),
            Event::Uuid(b) => self.on_uuid(b),
            Event::Profile(b) => self.on_profile(b),
            Event::Textures(t) => self.on_textures(t),
            Event::Image(b) => self.on_image(b),
        }
    }

    fn on_status(&mut self, status: u16) -> (action: Action)
        requires
            old(self).wf(),
            old(self).accepts(Event::Status(status)),
        ensures
            final(self).wf(),
            step_ok(*old(self), Event::Status(status), *final(self), action),
    {
        match self.stage {
            Stage::UuidStatus => match uuid_lookup_status(status) {
                Some(r) => self.finish(r),
                None => {
                    self.stage = Stage::UuidBody;
                    Action::ReadUuid
                },
            },
            Stage::ProfileStatus => match profile_fetch_status(status) {
                Some(r) => self.finish(r),
                None => {
                    self.stage = Stage::ProfileBody;
                    Action::ReadProfile
                },
            },
            Stage::ImageStatus(u) => {
                let message = if u == ImageUse::BatchSkin {
                    "failed to fetch skin from mojang"
                } else {
                    "failed to fetch cape from mojang"
                };
                match image_fetch_status(status, message) {
                    Some(r) => self.finish(r),
                    None => {
                        self.stage = Stage::ImageBody(u);
                        Action::ReadImage
                    },
                }
            },
            _ => {
                proof {
                    assert(false);
                }
                Action::ReadImage
            },
        }
    }

    fn on_uuid(&mut self, body: Option<MojangUuidResponse>) -> (action: Action)
        requires
            old(self).wf(),
            old(self).accepts(Event::Uuid(body)),
        ensures
            final(self).wf(),
            step_ok(*old(self), Event::Uuid(body), *final(self), action),
    {
        match uuid_from_lookup(body) {
            Err(r) => self.finish(r),
            Ok(id) => {
                let url = mojang_profile_url(id.as_str());
                self.uuid = id;
                self.stage = Stage::ProfileStatus;
                Action::Fetch(url)
            },
        }
    }

    /// Answers a profile request from what is known of the player.
    fn answer_profile(&mut self) -> (action: Action)
        requires
            old(self).wf(),
            old(self).stage() == Stage::ProfileBody,
            old(self).route_kind() == RouteKind::Profile,
        ensures
            final(self).wf(),
            final(self).route_kind() == old(self).route_kind(),
            final(self).options() == old(self).options(),
            final(self).parts() == old(self).parts(),
            final(self).info() == old(self).info(),
            final(self).next_part() == old(self).next_part(),
            final(self).skin_fetch_count() == old(self).skin_fetch_count(),
            profile_answer(old(self).options(), old(self).info(), final(self).stage(), action),
    {
        if self.options.raw {
            let mut frames: Vec<Vec<u8>> = Vec::new();
            if !self.options.exclude_uuid {
                frames.push(bytes_of(&self.uuid));
            }
            if !self.options.exclude_username {
                frames.push(bytes_of(&self.name));
            }
            frames.push(bytes_of(&self.value));
            frames.push(bytes_of(&self.signature));
            assert(parts_view(frames@) =~= profile_parts(self.options, self.info()));
            let mut builder = BatchBuilder::new();
            if append_parts(&mut builder, &frames) {
                assert(builder@ =~= encode_parts(profile_parts(self.options, self.info())));
                self.finish(builder.build().cached())
            } else {
                self.finish(json_error("response too large", 500))
            }
        } else {
            let uuid = if self.options.exclude_uuid {
                None
            } else {
                Some(self.uuid.clone())
            };
            let name = if self.options.exclude_username {
                None
            } else {
                Some(self.name.clone())
            };
            let textures = TextureData { value: self.value.clone(), signature: self.signature.clone() };
            self.finish(build_json_response(uuid, name, textures).cached())
        }
    }

    /// Decodes the textures value and asks for its document to be parsed.
    fn request_textures(&mut self) -> (action: Action)
        requires
            old(self).wf(),
            old(self).stage() == Stage::ProfileBody,
            old(self).route_kind() == RouteKind::Cape || old(self).route_kind() == RouteKind::Batch,
        ensures
            final(self).wf(),
            final(self).route_kind() == old(self).route_kind(),
            final(self).options() == old(self).options(),
            final(self).parts() == old(self).parts(),
            final(self).info() == old(self).info(),
            final(self).next_part() == old(self).next_part(),
            final(self).skin_fetch_count() == old(self).skin_fetch_count(),
            textures_requested(old(self).info(), final(self).stage(), action),
    {
        match decode_textures_b64(self.value.as_str()) {
            Err(r) => self.finish(r),
            Ok(d) => {
                self.stage = Stage::Textures;
                Action::ParseTextures(d)
            },
        }
    }
}

impl PlayerRequest {
    fn on_profile(&mut self, body: Option<MojangSessionResponse>) -> (action: Action)
        requires
            old(self).wf(),
            old(self).accepts(Event::Profile(body)),
        ensures
            final(self).wf(),
            step_ok(*old(self), Event::Profile(body), *final(self), action),
    {
        let p = match profile_from_fetch(body) {
            Err(r) => return self.finish(r),
            Ok(p) => p,
        };
        let ghost props = p.properties@;
        let (rest, tex) = match take_textures_property(p) {
            Err(r) => return self.finish(r),
            Ok(x) => x,
        };
        proof {
            let i = choose|i: int| #[trigger] is_first_textures(props, i) && tex == props[i];
            let c = choose|i: int| is_first_textures(props, i);
            lemma_first_textures_unique(props, i, c);
        }
        self.name = rest.name;
        self.value = tex.value;
        self.signature = tex.signature;
        match self.kind {
            RouteKind::Profile => self.answer_profile(),
            RouteKind::Cape => self.request_textures(),
            RouteKind::Batch => if parts_need_images(&self.parts) {
                self.request_textures()
            } else {
                self.stage = Stage::Running;
                proof {
                    assert(self.images@ =~= Seq::<Seq<u8>>::empty());
                    lemma_stop_bounds(self.parts@, self.info(), self.images@, None, None, 0);
                }
                self.advance_batch()
            },
        }
    }

    fn on_textures(&mut self, parsed: Option<TexturesDecoded>) -> (action: Action)
        requires
            old(self).wf(),
            old(self).accepts(Event::Textures(parsed)),
        ensures
            final(self).wf(),
            step_ok(*old(self), Event::Textures(parsed), *final(self), action),
    {
        let t = match textures_from_json(parsed) {
            Err(r) => return self.finish(r),
            Ok(t) => t,
        };
        if self.kind == RouteKind::Cape {
            match &t.textures.cape {
                None => self.finish(json_error("player has no cape", 404)),
                Some(c) => {
                    let url = c.url.clone();
                    self.stage = Stage::ImageStatus(ImageUse::CapeRoute);
                    Action::Fetch(url)
                },
            }
        } else {
            self.textures = Some(t);
            self.stage = Stage::Running;
            proof {
                assert(self.images@ =~= Seq::<Seq<u8>>::empty());
                lemma_stop_bounds(self.parts@, self.info(), self.images@, self.textures, None, 0);
            }
            self.advance_batch()
        }
    }

    fn on_image(&mut self, bytes: Vec<u8>) -> (action: Action)
        requires
            old(self).wf(),
            old(self).accepts(Event::Image(bytes)),
        ensures
            final(self).wf(),
            step_ok(*old(self), Event::Image(bytes), *final(self), action),
    {
        match self.stage {
            Stage::ImageBody(ImageUse::CapeRoute) => {
                let reply = Reply {
                    status: 200,
                    body: ReplyBody::Binary(MediaType::Png, bytes),
                    cache_max_age: Some(CACHE_MAX_AGE),
                };
                self.finish(reply)
            },
            Stage::ImageBody(ImageUse::BatchSkin) => {
                let ghost k = self.next as int;
                self.skin = Some(bytes);
                self.stage = Stage::Running;
                proof {
                    assert forall|j: int| 0 <= j < self.next implies #[trigger] processed_ok(self.parts@[j], self.images@[j], self.skin()) by {
                        assert(processed_ok(old(self).parts@[j], old(self).images@[j], old(self).skin()));
                    }
                    lemma_stop_bounds(self.parts@, self.info(), self.images@, self.textures, self.skin(), k);
                }
                self.advance_batch()
            },
            Stage::ImageBody(ImageUse::BatchCape) => {
                let k = self.next;
                let ghost info = self.info();
                let ghost images_next = self.images@.push(bytes@);
                match extract_image_rgb(bytes.as_slice()) {
                    Err(e) => self.finish(e),
                    Ok(v) => {
                        let frames = vec![v];
                        proof {
                            assert(parts_view(frames@) =~= part_frames(PartKind::Cape, info, bytes@));
                            lemma_batch_frames_prefix(self.parts@, info, self.images@, images_next, k as nat);
                            lemma_frames_step(self.parts@, info, images_next, k as nat);
                        }
                        if !append_parts(&mut self.builder, &frames) {
                            return self.finish(json_error("response too large", 500));
                        }
                        self.images = Ghost(images_next);
                        assert(k < self.parts.len());
                        self.next = k + 1;
                        self.stage = Stage::Running;
                        proof {
                            lemma_stop_bounds(self.parts@, info, images_next, self.textures, self.skin(), k + 1);
                        }
                        self.advance_batch()
                    },
                }
            },
            _ => {
                proof {
                    assert(false);
                }
                Action::ReadImage
            },
        }
    }
}

/// The skin of a batch is asked for at most once per request, however many head
/// and skin parts the batch lists: once fetched it is kept and reused.
pub proof fn lemma_skin_fetched_at_most_once(req: PlayerRequest)
    requires
        req.wf(),
    ensures
        req.skin_fetch_count() <= 1,
{
}

/// Every request is answered: each event lowers `measure`, which starts at no more
/// than 8 plus three per batch part, so a request takes at most that many events.
pub proof fn lemma_events_bounded(req: PlayerRequest)
    requires
        req.wf(),
    ensures
        req.measure() <= 8 + 3 * req.parts().len(),
{
}

/// A batch answer can be read back into its frames, in order, when every frame is
/// shorter than 2^16 bytes.
pub proof fn lemma_batch_answer_decodes(parts: Seq<PartKind>, info: PlayerInfo, images: Seq<Seq<u8>>)
    requires
        crate::framing::parts_fit_prefix(batch_frames(parts, info, images, parts.len())),
    ensures
        crate::framing::decode_parts(encode_parts(batch_frames(parts, info, images, parts.len())))
            == Some(batch_frames(parts, info, images, parts.len())),
{
    crate::framing::lemma_decode_encode(batch_frames(parts, info, images, parts.len()));
}

/// An answer of the kinds the service documents: a cacheable success, or a JSON
/// error whose body repeats its status, which is 400, 404, 500 or 502.
pub open spec fn documented_answer(r: Reply) -> bool {
    ||| r.status == 200 && r.cache_max_age == Some(CACHE_MAX_AGE) && !(r.body matches ReplyBody::Json(
        JsonBody::Error(_),
    ))
    ||| crate::reply::is_some_error_reply(r) && (r.status == 400 || r.status == 404 || r.status == 500
        || r.status == 502)
}

proof fn lemma_batch_documented(
    parts: Seq<PartKind>,
    info: PlayerInfo,
    images0: Seq<Seq<u8>>,
    tx: Option<TexturesDecoded>,
    skin: Option<Seq<u8>>,
    next: int,
    images: Seq<Seq<u8>>,
    stage: Stage,
    action: Action,
)
    requires
        batch_outcome(parts, info, images0, tx, skin, next, images, stage, action),
        action is Respond,
    ensures
        action matches Action::Respond(r) && documented_answer(r),
{
}

/// The decoded textures of a player are `decode_textures_b64` of its profile's
/// textures value, and then parsed as JSON: when the profile of
/// a cape request, or of a batch that asks for an image, arrives with a textures
/// property, the request answers 502 exactly when the value of the first such
/// property is not base64, and otherwise asks to parse exactly its decoded bytes;
/// a document that then does not parse is answered 502.
pub proof fn lemma_textures_from_profile(
    old: PlayerRequest,
    p: MojangSessionResponse,
    new: PlayerRequest,
    action: Action,
    later: PlayerRequest,
    answer: Action,
)
    requires
        old.stage() == Stage::ProfileBody,
        has_textures(p.properties@),
        old.route_kind() == RouteKind::Cape || (old.route_kind() == RouteKind::Batch && needs_images(old.parts())),
        step_ok(old, Event::Profile(Some(p)), new, action),
        action is ParseTextures ==> step_ok(new, Event::Textures(None), later, answer),
    ensures
        match base64_standard_decode(utf8(textures_property(p).value@)) {
            None => responds_error(new.stage(), action, "failed to decode textures base64"@, 502),
            Some(d) => {
                &&& action matches Action::ParseTextures(j) && j@ == d
                &&& responds_error(later.stage(), answer, "failed to parse textures json"@, 502)
            },
        },
{
}

/// A player that the Mojang lookup does not know is answered 404 "player not
/// found": a username lookup or a profile fetch that answers 204 or 404 ends the
/// request with that JSON error.
pub proof fn lemma_unknown_player_is_404(old: PlayerRequest, s: u16, new: PlayerRequest, action: Action)
    requires
        old.stage() == Stage::UuidStatus || old.stage() == Stage::ProfileStatus,
        s == 204 || s == 404,
        step_ok(old, Event::Status(s), new, action),
    ensures
        new.stage() == Stage::Done,
        action matches Action::Respond(r) && r.status == 404 && r.cache_max_age is None && (r.body matches ReplyBody::Json(
            JsonBody::Error(e),
        ) && e.error@ == "player not found"@ && e.status == 404),
{
}

/// A raw profile answer is the length-prefixed uuid, username, textures value
/// and signature of the player, in that order, with the uuid frame left out
/// exactly when `exclude` names `uuid` and the username frame left out exactly
/// when it names `username`; it is refused with 500 only when a frame does not
/// fit.
pub proof fn lemma_raw_profile_frames(old: PlayerRequest, p: MojangSessionResponse, new: PlayerRequest, action: Action)
    requires
        old.stage() == Stage::ProfileBody,
        old.route_kind() == RouteKind::Profile,
        old.options().raw,
        has_textures(p.properties@),
        step_ok(old, Event::Profile(Some(p)), new, action),
    ensures
        ({
            let uuid = utf8(old.info().0);
            let name = utf8(p.name@);
            let value = utf8(textures_property(p).value@);
            let sig = utf8(textures_property(p).signature@);
            let expected = match (old.options().exclude_uuid, old.options().exclude_username) {
                (false, false) => seq![uuid, name, value, sig],
                (true, false) => seq![name, value, sig],
                (false, true) => seq![uuid, value, sig],
                (true, true) => seq![value, sig],
            };
            action matches Action::Respond(r) && if r.status == 200 {
                r.body matches ReplyBody::Binary(m, b) && m == MediaType::OctetStream && decode_parts(b@) == Some(
                    expected,
                )
            } else {
                is_error_reply(r, "response too large"@, 500)
            }
        }),
{
    let tex = textures_property(p);
    let info = (old.info().0, p.name@, tex.value@, tex.signature@);
    let parts = profile_parts(old.options(), info);
    if parts_fit_prefix(parts) {
        lemma_decode_encode(parts);
    }
    let uuid = utf8(old.info().0);
    let name = utf8(p.name@);
    let value = utf8(tex.value@);
    let sig = utf8(tex.signature@);
    assert(parts =~= match (old.options().exclude_uuid, old.options().exclude_username) {
        (false, false) => seq![uuid, name, value, sig],
        (true, false) => seq![name, value, sig],
        (false, true) => seq![uuid, value, sig],
        (true, true) => seq![value, sig],
    });
}

/// A JSON profile answer carries the player's uuid exactly when `exclude` does
/// not name `uuid`, its username exactly when `exclude` does not name
/// `username`, each independently of the other, and always the signed textures
/// value of the profile.
pub proof fn lemma_json_profile_fields(old: PlayerRequest, p: MojangSessionResponse, new: PlayerRequest, action: Action)
    requires
        old.stage() == Stage::ProfileBody,
        old.route_kind() == RouteKind::Profile,
        !old.options().raw,
        has_textures(p.properties@),
        step_ok(old, Event::Profile(Some(p)), new, action),
    ensures
        action matches Action::Respond(r) && r.status == 200 && (r.body matches ReplyBody::Json(JsonBody::Player(pl)) && {
            &&& (pl.uuid is None <==> old.options().exclude_uuid)
            &&& (pl.username is None <==> old.options().exclude_username)
            &&& (pl.uuid matches Some(u) ==> u@ == old.info().0)
            &&& (pl.username matches Some(n) ==> n@ == p.name@)
            &&& pl.textures.value@ == textures_property(p).value@
            &&& pl.textures.signature@ == textures_property(p).signature@
        }),
{
}

/// A batch that asks only for the profile part answers the same as a raw profile
/// request that excludes nothing, and one that asks only for the texture part the
/// same as a raw profile request that excludes both uuid and username: same
/// status, and on success the same bytes.
pub proof fn lemma_batch_part_matches_raw_profile(
    kind: PartKind,
    p: MojangSessionResponse,
    old_b: PlayerRequest,
    new_b: PlayerRequest,
    act_b: Action,
    old_p: PlayerRequest,
    new_p: PlayerRequest,
    act_p: Action,
)
    requires
        kind == PartKind::Profile || kind == PartKind::Texture,
        has_textures(p.properties@),
        old_b.stage() == Stage::ProfileBody,
        old_b.route_kind() == RouteKind::Batch,
        old_b.parts() == seq![kind],
        old_p.stage() == Stage::ProfileBody,
        old_p.route_kind() == RouteKind::Profile,
        old_p.options().raw,
        old_p.options().exclude_uuid == (kind == PartKind::Texture),
        old_p.options().exclude_username == (kind == PartKind::Texture),
        old_p.info().0 == old_b.info().0,
        step_ok(old_b, Event::Profile(Some(p)), new_b, act_b),
        step_ok(old_p, Event::Profile(Some(p)), new_p, act_p),
    ensures
        act_b matches Action::Respond(rb) && act_p matches Action::Respond(rp) && {
            &&& rb.status == rp.status
            &&& rb.cache_max_age == rp.cache_max_age
            &&& rb.status == 200 ==> (rb.body matches ReplyBody::Binary(mb, bb) && rp.body matches ReplyBody::Binary(
                mp,
                bp,
            ) && mb == mp && bb@ == bp@)
            &&& rb.status != 200 ==> is_error_reply(rb, "response too large"@, 500) && is_error_reply(
                rp,
                "response too large"@,
                500,
            )
        },
{
    let tex = textures_property(p);
    let info = (old_b.info().0, p.name@, tex.value@, tex.signature@);
    let parts = seq![kind];
    assert(!parts.contains(PartKind::Head) && !parts.contains(PartKind::Skin) && !parts.contains(PartKind::Cape)) by {
        assert forall|i: int| 0 <= i < parts.len() implies parts[i] == kind by {}
    }
    let imgs = extend_images(parts, Seq::empty(), Seq::empty(), 1);
    let frames = part_frames(kind, info, imgs[0]);
    assert(frames =~= profile_parts(old_p.options(), info));
    assert(batch_frames(parts, info, imgs, 1) =~= frames) by {
        assert(batch_frames(parts, info, imgs, 0) =~= Seq::<Seq<u8>>::empty());
    }
    reveal_with_fuel(batch_stop, 3);
}

/// Every answer the machine gives is a documented one: a success marked cacheable
/// for `CACHE_MAX_AGE` seconds, or a JSON error of status 400, 404, 500 or 502
/// whose body repeats the status.
pub proof fn lemma_answers_documented(old: PlayerRequest, event: Event, new: PlayerRequest, action: Action)
    requires
        old.accepts(event),
        step_ok(old, event, new, action),
        action is Respond,
    ensures
        action matches Action::Respond(r) && documented_answer(r),
{
    match old.stage() {
        Stage::ProfileBody => {
            if let Event::Profile(Some(p)) = event {
                if has_textures(p.properties@) {
                    let tex = textures_property(p);
                    let info = (old.info().0, p.name@, tex.value@, tex.signature@);
                    if old.route_kind() == RouteKind::Batch && !needs_images(old.parts()) {
                        lemma_batch_documented(old.parts(), info, Seq::empty(), None, None, new.next_part(), new.images(), new.stage(), action);
                    }
                }
            }
        },
        Stage::Textures => {
            if let Event::Textures(Some(t)) = event {
                if old.route_kind() != RouteKind::Cape {
                    lemma_batch_documented(old.parts(), old.info(), Seq::empty(), Some(t), None, new.next_part(), new.images(), new.stage(), action);
                }
            }
        },
        Stage::ImageBody(u) => {
            if let Event::Image(b) = event {
                if u == ImageUse::BatchSkin {
                    lemma_batch_documented(old.parts(), old.info(), old.images(), old.textures(), Some(b@), new.next_part(), new.images(), new.stage(), action);
                } else if u == ImageUse::BatchCape {
                    let imgs = old.images().push(b@);
                    if image_rgb_of(b@) is Some && parts_fit_prefix(part_frames(PartKind::Cape, old.info(), b@)) && encode_parts(batch_frames(old.parts(), old.info(), imgs, (old.next_part() + 1) as nat)).len() <= isize::MAX {
                        lemma_batch_documented(old.parts(), old.info(), imgs, old.textures(), old.skin(), new.next_part(), new.images(), new.stage(), action);
                    }
                }
            }
        },
        _ => {},
    }
}

} // verus!
