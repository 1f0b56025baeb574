use std::collections::HashMap;
use vstd::prelude::*;

verus! {

broadcast use vstd::std_specs::hash::group_hash_axioms;

/// Identifier reserved for the 1x1 opaque white texture.
pub const FALLBACK_TEXTURE: u32 = 0;

/// Raw RGBA8 pixels to be uploaded as texture `id`.
pub struct TextureUploadCmd {
    pub id: u32,
    pub rgba: Vec<u8>,
    pub width: u32,
    pub height: u32,
}

impl TextureUploadCmd {
    /// Whether the upload describes a non-empty image whose pixel data has
    /// exactly four bytes per pixel, and whose id is not the reserved one.
    pub fn is_valid(&self) -> (r: bool)
        ensures
            r == (self.id != FALLBACK_TEXTURE && self.width > 0 && self.height > 0
                && self.rgba@.len() == 4 * (self.width as int) * (self.height as int)),
    {
        if self.id == FALLBACK_TEXTURE || self.width == 0 || self.height == 0 {
            return false;
        }
        assert(self.width as int * self.height as int <= u64::MAX) by (nonlinear_arith)
            requires
                self.width <= u32::MAX,
                self.height <= u32::MAX,
        ;
        let pixels = self.width as u64 * self.height as u64;
        assert(4 * (self.width as int) * (self.height as int) == 4 * (pixels as int)) by (nonlinear_arith)
            requires
                pixels == self.width as int * self.height as int,
        ;
        let len = self.rgba.len() as u64;
        pixels <= u64::MAX / 4 && len == 4 * pixels
    }
}

/// What registering `resource` under `id` makes of the table `m`: the
/// reserved id is never replaced.
pub open spec fn with_registration<R>(m: Map<u32, R>, id: u32, resource: R) -> Map<u32, R> {
    if id == FALLBACK_TEXTURE {
        m
    } else {
        m.insert(id, resource)
    }
}

/// The id that `id` resolves to: itself when registered, else the fallback.
pub open spec fn resolved_id<R>(m: Map<u32, R>, id: u32) -> u32 {
    if m.contains_key(id) {
        id
    } else {
        FALLBACK_TEXTURE
    }
}

/// The resource that `id` resolves to.
pub open spec fn resolved<R>(m: Map<u32, R>, id: u32) -> R {
    m[resolved_id(m, id)]
}

/// The table after registering `regs` in order on a fresh registry.
pub open spec fn after_registrations<R>(white: R, regs: Seq<(u32, R)>) -> Map<u32, R>
    decreases regs.len(),
{
    if regs.len() == 0 {
        map![FALLBACK_TEXTURE => white]
    } else {
        with_registration(after_registrations(white, regs.drop_last()), regs.last().0, regs.last().1)
    }
}

/// Maps texture ids to bindable resources. Id 0 always holds the white
/// fallback given at creation; unknown ids resolve to it.
pub struct TextureRegistry<R> {
    fallback: R,
    textures: HashMap<u32, R>,
}

impl<R> View for TextureRegistry<R> {
    type V = Map<u32, R>;

    closed spec fn view(&self) -> Map<u32, R> {
        self.textures@.insert(FALLBACK_TEXTURE, self.fallback)
    }
}

impl<R> TextureRegistry<R> {
    /// A registry holding only the fallback, under id 0.
    pub fn new(white: R) -> (reg: TextureRegistry<R>)
        ensures
            reg@ == map![FALLBACK_TEXTURE => white],
    {
        let reg = TextureRegistry { fallback: white, textures: HashMap::new() };
        assert(reg@ =~= map![FALLBACK_TEXTURE => white]);
        reg
    }

    /// Adds or replaces the resource of `id`. The reserved id 0 is left as it is.
    pub fn register(&mut self, id: u32, resource: R)
        ensures
            final(self)@ == with_registration(old(self)@, id, resource),
    {
        if id != FALLBACK_TEXTURE {
            self.textures.insert(id, resource);
            assert(self@ =~= old(self)@.insert(id, resource));
        }
    }

    pub fn is_registered(&self, id: u32) -> (r: bool)
        ensures
            r == self@.contains_key(id),
    {
        id == FALLBACK_TEXTURE || self.textures.contains_key(&id)
    }

    /// `id` itself when registered, else the fallback id.
    pub fn resolve_id(&self, id: u32) -> (r: u32)
        ensures
            r == resolved_id(self@, id),
            self@.contains_key(r),
    {
        if self.is_registered(id) {
            id
        } else {
            FALLBACK_TEXTURE
        }
    }

    /// The resource registered for `id`, or the fallback when there is none.
    pub fn resolve(&self, id: u32) -> (r: &R)
        ensures
            *r == resolved(self@, id),
    {
        if id == FALLBACK_TEXTURE {
            &self.fallback
        } else {
            match self.textures.get(&id) {
                Some(r) => r,
                None => &self.fallback,
            }
        }
    }
}

/// An id that was never registered resolves to the same resource as the
/// reserved id 0.
pub proof fn lemma_unregistered_resolves_to_fallback<R>(m: Map<u32, R>, id: u32)
    requires
        !m.contains_key(id),
    ensures
        resolved(m, id) == resolved(m, FALLBACK_TEXTURE),
{
}

/// On a fresh registry, as long as no registration names `id`, `id`
/// resolves to the white fallback, as does id 0.
pub proof fn lemma_fallback_until_registered<R>(white: R, regs: Seq<(u32, R)>, id: u32)
    requires
        forall|k: int| 0 <= k < regs.len() ==> (#[trigger] regs[k]).0 != id,
    ensures
        resolved(after_registrations(white, regs), id) == white,
        resolved(after_registrations(white, regs), FALLBACK_TEXTURE) == white,
    decreases regs.len(),
{
    if regs.len() > 0 {
        let prev = regs.drop_last();
        assert forall|k: int| 0 <= k < prev.len() implies (#[trigger] prev[k]).0 != id by {
            assert(prev[k] == regs[k]);
        }
        lemma_fallback_until_registered(white, prev, id);
        lemma_fallback_keeps_zero(white, regs);
    }
}

proof fn lemma_fallback_keeps_zero<R>(white: R, regs: Seq<(u32, R)>)
    ensures
        after_registrations(white, regs).contains_key(FALLBACK_TEXTURE),
        after_registrations(white, regs)[FALLBACK_TEXTURE] == white,
    decreases regs.len(),
{
    if regs.len() > 0 {
        lemma_fallback_keeps_zero(white, regs.drop_last());
    }
}

} // verus!
