//! The scene object model: sprite and dialogue definitions, draw layers and
//! the identity-key derivation that decides upsert-versus-insert.
//!
//! Positions and scales are carried as the bit patterns of single-precision
//! values: the library never interprets them numerically, it only stores
//! them, compares them and renders them into identity keys.

use vstd::prelude::*;
use vstd::string::StringExecFns;

use crate::text::{dec_int, dec_nat, push_char, push_dec_i64, push_dec_u64};

verus! {

/// Draw layer of a sprite; layers paint back to front.
#[derive(Clone, Copy, Debug, PartialEq, Eq, Structural)]
pub enum RenderLayer {
    Background,
    Character,
    Ui,
}

/// The rank of a layer in the draw order.
pub open spec fn layer_order(layer: RenderLayer) -> int {
    match layer {
        RenderLayer::Background => 0,
        RenderLayer::Character => 1,
        RenderLayer::Ui => 2,
    }
}

impl RenderLayer {
    /// The rank of this layer in the draw order.
    pub fn order(self) -> (r: i32)
        ensures
            r == layer_order(self),
    {
        match self {
            Self::Background => 0,
            Self::Character => 1,
            Self::Ui => 2,
        }
    }
}

/// A sprite definition: one textured quad with a 2D transform.
#[derive(Debug)]
pub struct GameObject2D {
    /// Explicit identity; when set, the identity key is stable across edits.
    pub id: Option<String>,
    /// Bit patterns of the x and y position.
    pub position: [u32; 2],
    /// Bit patterns of the x and y scale.
    pub scale: [u32; 2],
    /// Reference to the backing texture image.
    pub texture_path: String,
    pub layer: RenderLayer,
    /// Tie-break within a layer, ascending.
    pub z_index: i32,
    /// A hidden sprite keeps its resources but is skipped at draw time.
    pub hidden: bool,
}

/// A dialogue box definition.
#[derive(Debug)]
pub struct DialogueBoxObject {
    /// Explicit identity; when set, the identity key is stable across edits.
    pub id: Option<String>,
    pub speaker: String,
    pub text: String,
    pub hidden: bool,
}

/// Any object a scene script can emit.
#[derive(Debug)]
pub enum SceneObject {
    Sprite(GameObject2D),
    Dialogue(DialogueBoxObject),
}

/// The identity key of a sprite definition.
///
/// With an explicit id the key is `id:` plus the id, stable across edits.
/// Otherwise the key is derived from every structural field, so two
/// auto-keyed sprites are the same object only while all fields agree.
pub open spec fn sprite_key(o: GameObject2D) -> Seq<char> {
    match o.id {
        Some(id) => "id:"@ + id@,
        None => "auto:"@ + o.texture_path@ + seq![':'] + dec_nat(o.position[0] as nat) + seq![':']
            + dec_nat(o.position[1] as nat) + seq![':'] + dec_nat(o.scale[0] as nat) + seq![':']
            + dec_nat(o.scale[1] as nat) + seq![':'] + dec_nat(layer_order(o.layer) as nat)
            + seq![':'] + dec_int(o.z_index as int),
    }
}

/// The identity key of a dialogue definition: `id:` plus the explicit id,
/// or speaker and text when auto-keyed.
pub open spec fn dialogue_key(o: DialogueBoxObject) -> Seq<char> {
    match o.id {
        Some(id) => "id:"@ + id@,
        None => "auto:"@ + o.speaker@ + seq![':'] + o.text@,
    }
}

impl GameObject2D {
    /// A visible sprite without an explicit id.
    pub fn new(
        position: [u32; 2],
        scale: [u32; 2],
        texture_path: String,
        layer: RenderLayer,
        z_index: i32,
    ) -> (r: Self)
        ensures
            r == (GameObject2D {
                id: None,
                position,
                scale,
                texture_path,
                layer,
                z_index,
                hidden: false,
            }),
    {
        Self { id: None, position, scale, texture_path, layer, z_index, hidden: false }
    }

    /// The pair that orders entries for drawing: layer rank, then z-index.
    pub fn render_sort_key(&self) -> (r: (i32, i32))
        ensures
            r.0 == layer_order(self.layer),
            r.1 == self.z_index,
    {
        (self.layer.order(), self.z_index)
    }

    pub fn with_hidden(self, hidden: bool) -> (r: Self)
        ensures
            r == (GameObject2D { hidden, ..self }),
    {
        Self { hidden, ..self }
    }

    pub fn with_id(self, id: String) -> (r: Self)
        ensures
            r == (GameObject2D { id: Some(id), ..self }),
    {
        Self { id: Some(id), ..self }
    }

    /// The identity key used by the render object synchronizer.
    pub fn scene_key(&self) -> (r: String)
        ensures
            r@ == sprite_key(*self),
    {
        match &self.id {
            Some(id) => {
                let mut s = String::from_str("id:");
                s.append(id.as_str());
                s
            },
            None => {
                let mut s = String::from_str("auto:");
                s.append(self.texture_path.as_str());
                push_char(&mut s, ':');
                push_dec_u64(&mut s, self.position[0] as u64);
                push_char(&mut s, ':');
                push_dec_u64(&mut s, self.position[1] as u64);
                push_char(&mut s, ':');
                push_dec_u64(&mut s, self.scale[0] as u64);
                push_char(&mut s, ':');
                push_dec_u64(&mut s, self.scale[1] as u64);
                push_char(&mut s, ':');
                push_dec_u64(&mut s, self.layer.order() as u64);
                push_char(&mut s, ':');
                push_dec_i64(&mut s, self.z_index as i64);
                proof {
                    assert(s@ =~= sprite_key(*self));
                }
                s
            },
        }
    }
}

impl Clone for GameObject2D {
    /// A clone carries exactly the same fields.
    fn clone(&self) -> (r: Self)
        ensures
            r == *self,
    {
        Self {
            id: match &self.id {
                Some(id) => Some(id.clone()),
                None => None,
            },
            position: self.position,
            scale: self.scale,
            texture_path: self.texture_path.clone(),
            layer: self.layer,
            z_index: self.z_index,
            hidden: self.hidden,
        }
    }
}

impl DialogueBoxObject {
    /// A visible dialogue line with the default speaker and no explicit id.
    pub fn new(text: String) -> (r: Self)
        ensures
            r.id is None,
            r.speaker@ == "Lena"@,
            r.text == text,
            !r.hidden,
    {
        Self { id: None, speaker: String::from_str("Lena"), text, hidden: false }
    }

    pub fn with_id(self, id: String) -> (r: Self)
        ensures
            r == (DialogueBoxObject { id: Some(id), ..self }),
    {
        Self { id: Some(id), ..self }
    }

    pub fn with_speaker(self, speaker: String) -> (r: Self)
        ensures
            r == (DialogueBoxObject { speaker, ..self }),
    {
        Self { speaker, ..self }
    }

    pub fn with_hidden(self, hidden: bool) -> (r: Self)
        ensures
            r == (DialogueBoxObject { hidden, ..self }),
    {
        Self { hidden, ..self }
    }

    /// The identity key used by the progressive-reveal state.
    pub fn scene_key(&self) -> (r: String)
        ensures
            r@ == dialogue_key(*self),
    {
        match &self.id {
            Some(id) => {
                let mut s = String::from_str("id:");
                s.append(id.as_str());
                s
            },
            None => {
                let mut s = String::from_str("auto:");
                s.append(self.speaker.as_str());
                push_char(&mut s, ':');
                s.append(self.text.as_str());
                proof {
                    assert(s@ =~= dialogue_key(*self));
                }
                s
            },
        }
    }
}

impl Clone for DialogueBoxObject {
    /// A clone carries exactly the same fields.
    fn clone(&self) -> (r: Self)
        ensures
            r == *self,
    {
        Self {
            id: match &self.id {
                Some(id) => Some(id.clone()),
                None => None,
            },
            speaker: self.speaker.clone(),
            text: self.text.clone(),
            hidden: self.hidden,
        }
    }
}

/// A sequence splits uniquely at its last colon when the tail token holds
/// no colon.
proof fn lemma_colon_split(x1: Seq<char>, d1: Seq<char>, x2: Seq<char>, d2: Seq<char>)
    requires
        x1 + seq![':'] + d1 == x2 + seq![':'] + d2,
        forall|i: int| 0 <= i < d1.len() ==> d1[i] != ':',
        forall|i: int| 0 <= i < d2.len() ==> d2[i] != ':',
    ensures
        x1 == x2,
        d1 == d2,
{
    let s = x1 + seq![':'] + d1;
    assert(s.len() == x1.len() + 1 + d1.len());
    assert(s.len() == x2.len() + 1 + d2.len());
    if d1.len() == d2.len() {
        assert(x1.len() == x2.len());
        assert(x1 =~= x2) by {
            assert forall|i: int| 0 <= i < x1.len() implies x1[i] == x2[i] by {
                assert(s[i] == x1[i]);
                assert(s[i] == x2[i]);
            }
        }
        assert(d1 =~= d2) by {
            assert forall|i: int| 0 <= i < d1.len() implies d1[i] == d2[i] by {
                assert(s[x1.len() + 1 + i] == d1[i]);
                assert(s[x2.len() + 1 + i] == d2[i]);
            }
        }
    } else if d1.len() < d2.len() {
        assert(s[x1.len() as int] == ':');
        let k = x1.len() - x2.len() - 1;
        assert(s[x1.len() as int] == d2[k]);
        assert(false);
    } else {
        assert(s[x2.len() as int] == ':');
        let k = x2.len() - x1.len() - 1;
        assert(s[x2.len() as int] == d1[k]);
        assert(false);
    }
}

/// The auto key pins every structural field: two id-less sprites carry
/// the same key exactly when texture, position bits, scale bits, layer and
/// z-index all agree; the `hidden` flag never enters the key.
pub proof fn lemma_auto_key_injective(a: GameObject2D, b: GameObject2D)
    requires
        a.id is None,
        b.id is None,
        sprite_key(a) == sprite_key(b),
    ensures
        a.texture_path@ == b.texture_path@,
        a.position[0] == b.position[0],
        a.position[1] == b.position[1],
        a.scale[0] == b.scale[0],
        a.scale[1] == b.scale[1],
        a.layer == b.layer,
        a.z_index == b.z_index,
{
    let pa0 = "auto:"@ + a.texture_path@;
    let pa1 = pa0 + seq![':'] + dec_nat(a.position[0] as nat);
    let pa2 = pa1 + seq![':'] + dec_nat(a.position[1] as nat);
    let pa3 = pa2 + seq![':'] + dec_nat(a.scale[0] as nat);
    let pa4 = pa3 + seq![':'] + dec_nat(a.scale[1] as nat);
    let pa5 = pa4 + seq![':'] + dec_nat(layer_order(a.layer) as nat);
    let pb0 = "auto:"@ + b.texture_path@;
    let pb1 = pb0 + seq![':'] + dec_nat(b.position[0] as nat);
    let pb2 = pb1 + seq![':'] + dec_nat(b.position[1] as nat);
    let pb3 = pb2 + seq![':'] + dec_nat(b.scale[0] as nat);
    let pb4 = pb3 + seq![':'] + dec_nat(b.scale[1] as nat);
    let pb5 = pb4 + seq![':'] + dec_nat(layer_order(b.layer) as nat);
    assert(sprite_key(a) =~= pa5 + seq![':'] + dec_int(a.z_index as int));
    assert(sprite_key(b) =~= pb5 + seq![':'] + dec_int(b.z_index as int));

    crate::text::lemma_dec_int_plain(a.z_index as int);
    crate::text::lemma_dec_int_plain(b.z_index as int);
    lemma_colon_split(pa5, dec_int(a.z_index as int), pb5, dec_int(b.z_index as int));
    crate::text::lemma_dec_int_injective(a.z_index as int, b.z_index as int);

    crate::text::lemma_dec_nat_plain(layer_order(a.layer) as nat);
    crate::text::lemma_dec_nat_plain(layer_order(b.layer) as nat);
    lemma_colon_split(
        pa4,
        dec_nat(layer_order(a.layer) as nat),
        pb4,
        dec_nat(layer_order(b.layer) as nat),
    );
    crate::text::lemma_dec_nat_injective(
        layer_order(a.layer) as nat,
        layer_order(b.layer) as nat,
    );
    assert(a.layer == b.layer);

    crate::text::lemma_dec_nat_plain(a.scale[1] as nat);
    crate::text::lemma_dec_nat_plain(b.scale[1] as nat);
    lemma_colon_split(pa3, dec_nat(a.scale[1] as nat), pb3, dec_nat(b.scale[1] as nat));
    crate::text::lemma_dec_nat_injective(a.scale[1] as nat, b.scale[1] as nat);

    crate::text::lemma_dec_nat_plain(a.scale[0] as nat);
    crate::text::lemma_dec_nat_plain(b.scale[0] as nat);
    lemma_colon_split(pa2, dec_nat(a.scale[0] as nat), pb2, dec_nat(b.scale[0] as nat));
    crate::text::lemma_dec_nat_injective(a.scale[0] as nat, b.scale[0] as nat);

    crate::text::lemma_dec_nat_plain(a.position[1] as nat);
    crate::text::lemma_dec_nat_plain(b.position[1] as nat);
    lemma_colon_split(pa1, dec_nat(a.position[1] as nat), pb1, dec_nat(b.position[1] as nat));
    crate::text::lemma_dec_nat_injective(a.position[1] as nat, b.position[1] as nat);

    crate::text::lemma_dec_nat_plain(a.position[0] as nat);
    crate::text::lemma_dec_nat_plain(b.position[0] as nat);
    lemma_colon_split(pa0, dec_nat(a.position[0] as nat), pb0, dec_nat(b.position[0] as nat));
    crate::text::lemma_dec_nat_injective(a.position[0] as nat, b.position[0] as nat);

    assert(a.texture_path@ =~= pa0.skip("auto:"@.len() as int));
    assert(b.texture_path@ =~= pb0.skip("auto:"@.len() as int));
}

impl From<GameObject2D> for SceneObject {
    fn from(value: GameObject2D) -> (r: Self)
        ensures
            r == SceneObject::Sprite(value),
    {
        Self::Sprite(value)
    }
}

impl vstd::std_specs::convert::FromSpecImpl<GameObject2D> for SceneObject {
    open spec fn obeys_from_spec() -> bool {
        true
    }

    open spec fn from_spec(v: GameObject2D) -> Self {
        SceneObject::Sprite(v)
    }
}

impl From<DialogueBoxObject> for SceneObject {
    fn from(value: DialogueBoxObject) -> (r: Self)
        ensures
            r == SceneObject::Dialogue(value),
    {
        Self::Dialogue(value)
    }
}

impl vstd::std_specs::convert::FromSpecImpl<DialogueBoxObject> for SceneObject {
    open spec fn obeys_from_spec() -> bool {
        true
    }

    open spec fn from_spec(v: DialogueBoxObject) -> Self {
        SceneObject::Dialogue(v)
    }
}

impl Clone for SceneObject {
    /// A clone carries exactly the same value.
    fn clone(&self) -> (r: Self)
        ensures
            r == *self,
    {
        match self {
            Self::Sprite(o) => Self::Sprite(o.clone()),
            Self::Dialogue(o) => Self::Dialogue(o.clone()),
        }
    }
}

} // verus!
