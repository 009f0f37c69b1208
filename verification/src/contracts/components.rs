//! The fixed-point components that every world row carries, and their memory
//! image as little-endian words.

use crate::fx::Fx16;
use vstd::prelude::*;

verus! {

/// A component whose memory image is a fixed number of 32-bit words.
pub trait Component: Sized + Copy {
    /// Number of words in the image.
    spec fn width() -> nat;

    /// The image of a value.
    spec fn words(self) -> Seq<u32>;

    /// The value with a given image.
    spec fn of_words(ws: Seq<u32>) -> Self;

    /// An image has the component's width, and the value is read back from it.
    proof fn lemma_image(self)
        ensures
            self.words().len() == Self::width(),
            Self::of_words(self.words()) == self,
    ;

    /// No component is empty, and none is wider than ten words.
    proof fn lemma_width()
        ensures
            1 <= Self::width() <= 10,
    ;

    /// The size of one element in bytes.
    fn element_size() -> (r: usize)
        ensures
            r == 4 * Self::width(),
    ;

    /// The words of this value.
    fn to_words(&self) -> (r: Vec<u32>)
        ensures
            r@ == self.words(),
    ;

    /// The value whose words are `ws`.
    fn from_words(ws: &Vec<u32>) -> (r: Self)
        requires
            ws@.len() == Self::width(),
        ensures
            r == Self::of_words(ws@),
    ;
}

/// 2D position, fixed-point.
#[derive(Clone, Copy, PartialEq, Eq, Structural, Debug)]
pub struct Position {
    /// X coordinate.
    pub x: Fx16,
    /// Y coordinate.
    pub y: Fx16,
}

/// 2D velocity, fixed-point.
#[derive(Clone, Copy, PartialEq, Eq, Structural, Debug)]
pub struct Velocity {
    /// X velocity.
    pub x: Fx16,
    /// Y velocity.
    pub y: Fx16,
}

/// RGBA color.
#[derive(Clone, Copy, PartialEq, Eq, Structural, Debug)]
pub struct Color {
    /// Red.
    pub r: u8,
    /// Green.
    pub g: u8,
    /// Blue.
    pub b: u8,
    /// Alpha.
    pub a: u8,
}

/// 3D transform: position, rotation (quaternion x, y, z, w) and scale.
#[derive(Clone, Copy, PartialEq, Eq, Debug)]
pub struct Transform {
    /// World position (x, y, z).
    pub position: [Fx16; 3],
    /// Rotation quaternion (x, y, z, w); the identity is (0, 0, 0, 1).
    pub rotation: [Fx16; 4],
    /// Scale (x, y, z).
    pub scale: [Fx16; 3],
}

/// 3D velocity of a gameplay actor.
#[derive(Clone, Copy, PartialEq, Eq, Debug)]
pub struct Velocity3D {
    /// Linear velocity (x, y, z).
    pub linear: [Fx16; 3],
}

/// Gameplay actor tag: kind, deterministic seed, ground and jump state.
#[derive(Clone, Copy, PartialEq, Eq, Structural, Debug)]
pub struct Actor {
    /// 0 = player, 1 = wander, 2 = circle, 3 = chase.
    pub kind: u32,
    /// Deterministic seed of the behaviour.
    pub seed: u32,
    /// 1 = on the ground.
    pub grounded: u32,
    /// Ticks before the next jump is allowed.
    pub jump_cd: u32,
    /// Horizontal move speed.
    pub move_speed: Fx16,
    /// Jump impulse.
    pub jump_force: Fx16,
}

impl Color {
    /// Opaque white.
    pub fn white() -> (r: Color)
        ensures
            r == (Color { r: 255, g: 255, b: 255, a: 255 }),
    {
        Color { r: 255, g: 255, b: 255, a: 255 }
    }
}

impl Transform {
    /// The identity rotation and unit scale at a position.
    pub open spec fn spec_at(position: [Fx16; 3], scale: [Fx16; 3]) -> Transform {
        Transform {
            position,
            rotation: [Fx16::of_int(0), Fx16::of_int(0), Fx16::of_int(0), Fx16::of_int(1)],
            scale,
        }
    }

    /// The transform with a position, a scale and no rotation.
    pub fn placed(position: [Fx16; 3], scale: [Fx16; 3]) -> (r: Self)
        ensures
            r == Transform::spec_at(position, scale),
    {
        Transform {
            position,
            rotation: [
                Fx16::from_num(0),
                Fx16::from_num(0),
                Fx16::from_num(0),
                Fx16::from_num(1),
            ],
            scale,
        }
    }

    /// The identity transform at a position.
    pub fn at(x: Fx16, y: Fx16, z: Fx16) -> (r: Self)
        ensures
            r == Transform::spec_at(
                [x, y, z],
                [Fx16::of_int(1), Fx16::of_int(1), Fx16::of_int(1)],
            ),
    {
        Transform::placed(
            [x, y, z],
            [Fx16::from_num(1), Fx16::from_num(1), Fx16::from_num(1)],
        )
    }
}

impl Transform {
    /// The transform that is zero in every field, its scale and rotation too.
    pub open spec fn spec_zero() -> Transform {
        let z = Fx16 { bits: 0 };
        Transform { position: [z, z, z], rotation: [z, z, z, z], scale: [z, z, z] }
    }

    /// The transform that is zero in every field, its scale and rotation too.
    pub fn zero() -> (r: Self)
        ensures
            r == Transform::spec_zero(),
    {
        let z = Fx16::from_bits(0);
        Transform { position: [z, z, z], rotation: [z, z, z, z], scale: [z, z, z] }
    }
}

impl Velocity3D {
    /// No motion.
    pub open spec fn spec_zero() -> Velocity3D {
        Velocity3D { linear: [Fx16 { bits: 0 }, Fx16 { bits: 0 }, Fx16 { bits: 0 }] }
    }

    /// No motion.
    pub fn zero() -> (r: Self)
        ensures
            r == Velocity3D::spec_zero(),
    {
        Velocity3D { linear: [Fx16::from_bits(0), Fx16::from_bits(0), Fx16::from_bits(0)] }
    }
}

impl Actor {
    /// A player with a horizontal speed and a jump force.
    pub fn player(move_speed: Fx16, jump_force: Fx16) -> (r: Self)
        ensures
            r == (Actor { kind: 0, seed: 0, grounded: 1, jump_cd: 0, move_speed, jump_force }),
    {
        Actor { kind: 0, seed: 0, grounded: 1, jump_cd: 0, move_speed, jump_force }
    }

    /// An actor that the game drives, with a behaviour and a seed.
    pub fn npc(kind: u32, seed: u32) -> (r: Self)
        ensures
            r == Actor::spec_npc(kind, seed),
    {
        Actor {
            kind,
            seed,
            grounded: 1,
            jump_cd: 0,
            move_speed: Fx16::from_num(1),
            jump_force: Fx16::from_num(1),
        }
    }

    /// An actor that the game drives.
    pub open spec fn spec_npc(kind: u32, seed: u32) -> Actor {
        Actor {
            kind,
            seed,
            grounded: 1,
            jump_cd: 0,
            move_speed: Fx16::of_int(1),
            jump_force: Fx16::of_int(1),
        }
    }

    /// The actor that is zero in every field.
    pub open spec fn spec_zero() -> Actor {
        Actor {
            kind: 0,
            seed: 0,
            grounded: 0,
            jump_cd: 0,
            move_speed: Fx16 { bits: 0 },
            jump_force: Fx16 { bits: 0 },
        }
    }

    /// The actor that is zero in every field.
    pub fn zero() -> (r: Self)
        ensures
            r == Actor::spec_zero(),
    {
        Actor {
            kind: 0,
            seed: 0,
            grounded: 0,
            jump_cd: 0,
            move_speed: Fx16::from_bits(0),
            jump_force: Fx16::from_bits(0),
        }
    }
}

/// The word that a fixed-point number occupies.
pub open spec fn fx_word(v: Fx16) -> u32 {
    crate::fx::bits_word(v.bits)
}

/// The fixed-point number in a word.
pub open spec fn word_fx(w: u32) -> Fx16 {
    Fx16 { bits: crate::fx::word_bits(w) }
}

fn fx_to_word(v: Fx16) -> (r: u32)
    ensures
        r == fx_word(v),
{
    crate::fx::to_word(v.bits)
}

fn word_to_fx(w: u32) -> (r: Fx16)
    ensures
        r == word_fx(w),
{
    Fx16 { bits: crate::fx::from_word(w) }
}

impl Component for Position {
    open spec fn width() -> nat {
        2
    }

    open spec fn words(self) -> Seq<u32> {
        seq![fx_word(self.x), fx_word(self.y)]
    }

    open spec fn of_words(ws: Seq<u32>) -> Self {
        Position { x: word_fx(ws[0]), y: word_fx(ws[1]) }
    }

    proof fn lemma_image(self) {
    }

    proof fn lemma_width() {
    }

    fn element_size() -> (r: usize) {
        8
    }

    fn to_words(&self) -> (r: Vec<u32>) {
        vec![fx_to_word(self.x), fx_to_word(self.y)]
    }

    fn from_words(ws: &Vec<u32>) -> (r: Self) {
        Position { x: word_to_fx(ws[0]), y: word_to_fx(ws[1]) }
    }
}

impl Component for Velocity {
    open spec fn width() -> nat {
        2
    }

    open spec fn words(self) -> Seq<u32> {
        seq![fx_word(self.x), fx_word(self.y)]
    }

    open spec fn of_words(ws: Seq<u32>) -> Self {
        Velocity { x: word_fx(ws[0]), y: word_fx(ws[1]) }
    }

    proof fn lemma_image(self) {
    }

    proof fn lemma_width() {
    }

    fn element_size() -> (r: usize) {
        8
    }

    fn to_words(&self) -> (r: Vec<u32>) {
        vec![fx_to_word(self.x), fx_to_word(self.y)]
    }

    fn from_words(ws: &Vec<u32>) -> (r: Self) {
        Velocity { x: word_to_fx(ws[0]), y: word_to_fx(ws[1]) }
    }
}

impl Component for Color {
    open spec fn width() -> nat {
        1
    }

    open spec fn words(self) -> Seq<u32> {
        seq![crate::bytes::le_word(self.r, self.g, self.b, self.a)]
    }

    open spec fn of_words(ws: Seq<u32>) -> Self {
        Color {
            r: crate::bytes::le_byte(ws[0], 0),
            g: crate::bytes::le_byte(ws[0], 1),
            b: crate::bytes::le_byte(ws[0], 2),
            a: crate::bytes::le_byte(ws[0], 3),
        }
    }

    proof fn lemma_image(self) {
        crate::bytes::lemma_bytes_of_word(self.r, self.g, self.b, self.a);
    }

    proof fn lemma_width() {
    }

    fn element_size() -> (r: usize) {
        4
    }

    fn to_words(&self) -> (r: Vec<u32>) {
        let bytes: [u8; 4] = [self.r, self.g, self.b, self.a];
        vec![crate::bytes::read_word(bytes.as_slice(), 0)]
    }

    fn from_words(ws: &Vec<u32>) -> (r: Self) {
        let mut b: Vec<u8> = Vec::new();
        crate::bytes::push_word(&mut b, ws[0]);
        Color { r: b[0], g: b[1], b: b[2], a: b[3] }
    }
}

impl Component for Transform {
    open spec fn width() -> nat {
        10
    }

    open spec fn words(self) -> Seq<u32> {
        seq![
            fx_word(self.position[0]),
            fx_word(self.position[1]),
            fx_word(self.position[2]),
            fx_word(self.rotation[0]),
            fx_word(self.rotation[1]),
            fx_word(self.rotation[2]),
            fx_word(self.rotation[3]),
            fx_word(self.scale[0]),
            fx_word(self.scale[1]),
            fx_word(self.scale[2]),
        ]
    }

    open spec fn of_words(ws: Seq<u32>) -> Self {
        Transform {
            position: [word_fx(ws[0]), word_fx(ws[1]), word_fx(ws[2])],
            rotation: [word_fx(ws[3]), word_fx(ws[4]), word_fx(ws[5]), word_fx(ws[6])],
            scale: [word_fx(ws[7]), word_fx(ws[8]), word_fx(ws[9])],
        }
    }

    proof fn lemma_image(self) {
        let t = Self::of_words(self.words());
        assert(t.position =~= self.position);
        assert(t.rotation =~= self.rotation);
        assert(t.scale =~= self.scale);
    }

    proof fn lemma_width() {
    }

    fn element_size() -> (r: usize) {
        40
    }

    fn to_words(&self) -> (r: Vec<u32>) {
        vec![
            fx_to_word(self.position[0]),
            fx_to_word(self.position[1]),
            fx_to_word(self.position[2]),
            fx_to_word(self.rotation[0]),
            fx_to_word(self.rotation[1]),
            fx_to_word(self.rotation[2]),
            fx_to_word(self.rotation[3]),
            fx_to_word(self.scale[0]),
            fx_to_word(self.scale[1]),
            fx_to_word(self.scale[2]),
        ]
    }

    fn from_words(ws: &Vec<u32>) -> (r: Self) {
        Transform {
            position: [word_to_fx(ws[0]), word_to_fx(ws[1]), word_to_fx(ws[2])],
            rotation: [
                word_to_fx(ws[3]),
                word_to_fx(ws[4]),
                word_to_fx(ws[5]),
                word_to_fx(ws[6]),
            ],
            scale: [word_to_fx(ws[7]), word_to_fx(ws[8]), word_to_fx(ws[9])],
        }
    }
}

impl Component for Velocity3D {
    open spec fn width() -> nat {
        3
    }

    open spec fn words(self) -> Seq<u32> {
        seq![fx_word(self.linear[0]), fx_word(self.linear[1]), fx_word(self.linear[2])]
    }

    open spec fn of_words(ws: Seq<u32>) -> Self {
        Velocity3D { linear: [word_fx(ws[0]), word_fx(ws[1]), word_fx(ws[2])] }
    }

    proof fn lemma_image(self) {
        assert(Self::of_words(self.words()).linear =~= self.linear);
    }

    proof fn lemma_width() {
    }

    fn element_size() -> (r: usize) {
        12
    }

    fn to_words(&self) -> (r: Vec<u32>) {
        vec![fx_to_word(self.linear[0]), fx_to_word(self.linear[1]), fx_to_word(self.linear[2])]
    }

    fn from_words(ws: &Vec<u32>) -> (r: Self) {
        Velocity3D { linear: [word_to_fx(ws[0]), word_to_fx(ws[1]), word_to_fx(ws[2])] }
    }
}

impl Component for Actor {
    open spec fn width() -> nat {
        6
    }

    open spec fn words(self) -> Seq<u32> {
        seq![
            self.kind,
            self.seed,
            self.grounded,
            self.jump_cd,
            fx_word(self.move_speed),
            fx_word(self.jump_force),
        ]
    }

    open spec fn of_words(ws: Seq<u32>) -> Self {
        Actor {
            kind: ws[0],
            seed: ws[1],
            grounded: ws[2],
            jump_cd: ws[3],
            move_speed: word_fx(ws[4]),
            jump_force: word_fx(ws[5]),
        }
    }

    proof fn lemma_image(self) {
    }

    proof fn lemma_width() {
    }

    fn element_size() -> (r: usize) {
        24
    }

    fn to_words(&self) -> (r: Vec<u32>) {
        vec![
            self.kind,
            self.seed,
            self.grounded,
            self.jump_cd,
            fx_to_word(self.move_speed),
            fx_to_word(self.jump_force),
        ]
    }

    fn from_words(ws: &Vec<u32>) -> (r: Self) {
        Actor {
            kind: ws[0],
            seed: ws[1],
            grounded: ws[2],
            jump_cd: ws[3],
            move_speed: word_to_fx(ws[4]),
            jump_force: word_to_fx(ws[5]),
        }
    }
}

/// The memory image of a position or a velocity: two words, x and then y.
pub proof fn law_image_2d(p: Position, v: Velocity)
    ensures
        Position::width() == 2 && Velocity::width() == 2,
        p.words().len() == 2 && v.words().len() == 2,
        crate::fx::word_bits(p.words()[0]) == p.x.bits,
        crate::fx::word_bits(p.words()[1]) == p.y.bits,
        crate::fx::word_bits(v.words()[0]) == v.x.bits,
        crate::fx::word_bits(v.words()[1]) == v.y.bits,
{
}

/// The memory image of a transform: ten words, the position, the rotation and the
/// scale, each in the order of its coordinates.
pub proof fn law_image_transform(t: Transform)
    ensures
        Transform::width() == 10,
        t.words().len() == 10,
        forall|k: int|
            0 <= k < 3 ==> crate::fx::word_bits(#[trigger] t.words()[k]) == t.position[k].bits,
        forall|k: int|
            3 <= k < 7 ==> crate::fx::word_bits(#[trigger] t.words()[k]) == t.rotation[k - 3].bits,
        forall|k: int|
            7 <= k < 10 ==> crate::fx::word_bits(#[trigger] t.words()[k]) == t.scale[k - 7].bits,
{
}

/// The memory image of a 3D velocity: three words, in the order of the coordinates.
pub proof fn law_image_velocity3d(v: Velocity3D)
    ensures
        Velocity3D::width() == 3,
        v.words().len() == 3,
        forall|k: int|
            0 <= k < 3 ==> crate::fx::word_bits(#[trigger] v.words()[k]) == v.linear[k].bits,
{
}

/// The memory image of an actor: six words, its fields in order.
pub proof fn law_image_actor(a: Actor)
    ensures
        Actor::width() == 6,
        a.words().len() == 6,
        a.words()[0] == a.kind,
        a.words()[1] == a.seed,
        a.words()[2] == a.grounded,
        a.words()[3] == a.jump_cd,
        crate::fx::word_bits(a.words()[4]) == a.move_speed.bits,
        crate::fx::word_bits(a.words()[5]) == a.jump_force.bits,
{
}

/// The memory image of a color: one word, whose bytes are the channels in order.
pub proof fn law_image_color(c: Color)
    ensures
        Color::width() == 1,
        crate::bytes::words_bytes(c.words()) == seq![c.r, c.g, c.b, c.a],
{
    crate::bytes::lemma_bytes_of_word(c.r, c.g, c.b, c.a);
    crate::bytes::law_words_in_order(c.words(), 0);
    let b = crate::bytes::words_bytes(c.words());
    assert(b.subrange(0, 4) =~= b);
    assert(b =~= seq![c.r, c.g, c.b, c.a]);
}

/// A transform at a place has that place and scale and no rotation; the zero
/// transform, velocity and actor are zero in every number.
pub proof fn law_made_components(position: [Fx16; 3], scale: [Fx16; 3], kind: u32, seed: u32)
    ensures
        Transform::spec_at(position, scale).position == position,
        Transform::spec_at(position, scale).scale == scale,
        forall|k: int|
            0 <= k < 3 ==> (#[trigger] Transform::spec_at(position, scale).rotation[k]).bits == 0,
        Transform::spec_at(position, scale).rotation[3].bits == 65536,
        forall|k: int| 0 <= k < 10 ==> #[trigger] Transform::spec_zero().words()[k] == 0,
        forall|k: int| 0 <= k < 3 ==> #[trigger] Velocity3D::spec_zero().words()[k] == 0,
        forall|k: int| 0 <= k < 6 ==> #[trigger] Actor::spec_zero().words()[k] == 0,
        Actor::spec_npc(kind, seed).kind == kind,
        Actor::spec_npc(kind, seed).seed == seed,
        Actor::spec_npc(kind, seed).grounded == 1,
        Actor::spec_npc(kind, seed).jump_cd == 0,
        Actor::spec_npc(kind, seed).move_speed.bits == 65536,
        Actor::spec_npc(kind, seed).jump_force.bits == 65536,
{
}

} // verus!
