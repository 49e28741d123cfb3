//! Kinds of blocks: their names, textures, colours, the tool that mines them
//! and how long that takes.
use vstd::prelude::*;
use vstd::string::StringExecFns;
use crate::side::Side;

verus! {

/// A colour with red, green, blue and alpha channels of 8 bits each.
#[derive(Clone, Copy, Debug, PartialEq, Eq, Structural)]
pub struct Rgba8 {
    pub r: u8,
    pub g: u8,
    pub b: u8,
    pub a: u8,
}

impl Default for Rgba8 {
    /// Transparent black.
    fn default() -> (r: Self)
        ensures
            r == (Rgba8 { r: 0, g: 0, b: 0, a: 0 }),
    {
        Rgba8 { r: 0, g: 0, b: 0, a: 0 }
    }
}

impl Rgba8 {
    pub fn new(r: u8, g: u8, b: u8, a: u8) -> (c: Self)
        ensures
            c == (Rgba8 { r, g, b, a }),
    {
        Rgba8 { r, g, b, a }
    }
}

/// The tool that mines a block best, with the tool level it takes;
/// `NoTool` when no tool helps.
#[derive(Clone, Copy, Debug, PartialEq, Eq, Structural)]
pub enum MiningCategory {
    NoTool,
    Axe(u8),
    Pickaxe(u8),
    Shovel(u8),
}

impl Default for MiningCategory {
    /// No tool helps.
    fn default() -> (r: Self)
        ensures
            r == MiningCategory::NoTool,
    {
        MiningCategory::NoTool
    }
}

/// Every side has texture `tex`.
pub open spec fn all_sides(t: [u8; 6], tex: u8) -> bool {
    forall|i: int| 0 <= i < 6 ==> #[trigger] t[i] == tex
}

/// Opaque white.
pub open spec fn white_spec() -> Rgba8 {
    Rgba8 { r: 255, g: 255, b: 255, a: 255 }
}

/// Opaque white.
fn white() -> (c: Rgba8)
    ensures
        c == white_spec(),
{
    Rgba8 { r: 255, g: 255, b: 255, a: 255 }
}

/// A kind of block: its name, a texture per side (indexed by
/// [`Side`]), two colours, its mining category and its health, the mining
/// damage it takes to break it.
#[derive(Debug)]
pub struct BlockType {
    name: String,
    texture_index: [u8; 6],
    colors: [Rgba8; 2],
    mining_cat: MiningCategory,
    block_health: u16,
}

impl Clone for BlockType {
    /// A copy with the same name, textures, colours, mining category and
    /// health.
    fn clone(&self) -> (r: Self)
        ensures
            r == *self,
    {
        BlockType {
            name: self.name.clone(),
            texture_index: self.texture_index,
            colors: self.colors,
            mining_cat: self.mining_cat,
            block_health: self.block_health,
        }
    }
}

impl Default for BlockType {
    /// An unnamed block type with texture 0 on every side, two transparent
    /// black colours, no mining category and health 0.
    fn default() -> (r: Self)
        ensures
            r.name_spec() == Seq::<char>::empty(),
            all_sides(r.tex_spec(), 0),
            r.colors_spec()@ == seq![Rgba8 { r: 0, g: 0, b: 0, a: 0 }, Rgba8 { r: 0, g: 0, b: 0, a: 0 }],
            r.mining_cat_spec() == MiningCategory::NoTool,
            r.block_health_spec() == 0,
    {
        let z = Rgba8 { r: 0, g: 0, b: 0, a: 0 };
        BlockType {
            name: String::new(),
            texture_index: [0; 6],
            colors: [z, z],
            mining_cat: MiningCategory::NoTool,
            block_health: 0,
        }
    }
}

impl BlockType {
    pub closed spec fn name_spec(&self) -> Seq<char> {
        self.name@
    }

    pub closed spec fn tex_spec(&self) -> [u8; 6] {
        self.texture_index
    }

    pub closed spec fn colors_spec(&self) -> [Rgba8; 2] {
        self.colors
    }

    pub closed spec fn mining_cat_spec(&self) -> MiningCategory {
        self.mining_cat
    }

    pub closed spec fn block_health_spec(&self) -> u16 {
        self.block_health
    }

    /// A block type named `name`, texture 0 on every side, white in both
    /// colours, no mining category and health 50.
    pub fn new(name: &str) -> (r: Self)
        ensures
            r.name_spec() == name@,
            all_sides(r.tex_spec(), 0),
            r.colors_spec()@ == seq![white_spec(), white_spec()],
            r.mining_cat_spec() == MiningCategory::NoTool,
            r.block_health_spec() == 50,
    {
        let texture_index: [u8; 6] = [0; 6];
        let name = String::from_str(name);
        let colors = [white(); 2];
        Self { mining_cat: MiningCategory::NoTool, name, texture_index, colors, block_health: 50 }
    }

    pub fn with_colors(self, a: Rgba8, b: Rgba8) -> (r: Self)
        ensures
            r.colors_spec()@ == seq![a, b],
            r.name_spec() == self.name_spec(),
            r.tex_spec() == self.tex_spec(),
            r.mining_cat_spec() == self.mining_cat_spec(),
            r.block_health_spec() == self.block_health_spec(),
    {
        let mut s = self;
        s.colors = [a, b];
        s
    }

    /// `self` with texture `tex` on every side.
    pub fn with_texture(self, tex: u8) -> (r: Self)
        ensures
            all_sides(r.tex_spec(), tex),
            r.name_spec() == self.name_spec(),
            r.colors_spec() == self.colors_spec(),
            r.mining_cat_spec() == self.mining_cat_spec(),
            r.block_health_spec() == self.block_health_spec(),
    {
        let mut s = self;
        s.texture_index = [tex; 6];
        s
    }

    /// `self` with texture `tex` on `side`.
    pub fn with_texture_side(self, tex: u8, side: Side) -> (r: Self)
        ensures
            r.tex_spec()@ == self.tex_spec()@.update(side.index() as int, tex),
            r.name_spec() == self.name_spec(),
            r.colors_spec() == self.colors_spec(),
            r.mining_cat_spec() == self.mining_cat_spec(),
            r.block_health_spec() == self.block_health_spec(),
    {
        let mut s = self;
        let i: usize = side.into();
        s.texture_index[i] = tex;
        s
    }

    pub fn with_mining_cat(self, cat: MiningCategory) -> (r: Self)
        ensures
            r.mining_cat_spec() == cat,
            r.name_spec() == self.name_spec(),
            r.tex_spec() == self.tex_spec(),
            r.colors_spec() == self.colors_spec(),
            r.block_health_spec() == self.block_health_spec(),
    {
        let mut s = self;
        s.mining_cat = cat;
        s
    }

    pub fn with_block_health(self, block_health: u16) -> (r: Self)
        ensures
            r.block_health_spec() == block_health,
            r.name_spec() == self.name_spec(),
            r.tex_spec() == self.tex_spec(),
            r.colors_spec() == self.colors_spec(),
            r.mining_cat_spec() == self.mining_cat_spec(),
    {
        let mut s = self;
        s.block_health = block_health;
        s
    }

    pub fn name(&self) -> (r: &str)
        ensures
            r@ == self.name_spec(),
    {
        self.name.as_str()
    }

    pub fn colors(&self) -> (r: [Rgba8; 2])
        ensures
            r == self.colors_spec(),
    {
        self.colors
    }

    /// `self` with texture `tex` on the top side.
    pub fn with_texture_top(self, tex: u8) -> (r: Self)
        ensures
            r.tex_spec()@ == self.tex_spec()@.update(2, tex),
            r.name_spec() == self.name_spec(),
            r.colors_spec() == self.colors_spec(),
            r.mining_cat_spec() == self.mining_cat_spec(),
            r.block_health_spec() == self.block_health_spec(),
    {
        self.with_texture_side(tex, Side::Top)
    }

    /// `self` with texture `tex` on the bottom side.
    pub fn with_texture_bottom(self, tex: u8) -> (r: Self)
        ensures
            r.tex_spec()@ == self.tex_spec()@.update(3, tex),
            r.name_spec() == self.name_spec(),
            r.colors_spec() == self.colors_spec(),
            r.mining_cat_spec() == self.mining_cat_spec(),
            r.block_health_spec() == self.block_health_spec(),
    {
        self.with_texture_side(tex, Side::Bottom)
    }

    pub fn tex(&self) -> (r: [u8; 6])
        ensures
            r == self.tex_spec(),
    {
        self.texture_index
    }

    pub fn tex_front(&self) -> (r: u8)
        ensures
            r == self.tex_spec()[Side::Front.index() as int],
    {
        let i: usize = Side::Front.into();
        self.texture_index[i]
    }

    pub fn tex_back(&self) -> (r: u8)
        ensures
            r == self.tex_spec()[Side::Back.index() as int],
    {
        let i: usize = Side::Back.into();
        self.texture_index[i]
    }

    pub fn tex_left(&self) -> (r: u8)
        ensures
            r == self.tex_spec()[Side::Left.index() as int],
    {
        let i: usize = Side::Left.into();
        self.texture_index[i]
    }

    pub fn tex_right(&self) -> (r: u8)
        ensures
            r == self.tex_spec()[Side::Right.index() as int],
    {
        let i: usize = Side::Right.into();
        self.texture_index[i]
    }

    pub fn tex_top(&self) -> (r: u8)
        ensures
            r == self.tex_spec()[Side::Top.index() as int],
    {
        let i: usize = Side::Top.into();
        self.texture_index[i]
    }

    pub fn tex_bottom(&self) -> (r: u8)
        ensures
            r == self.tex_spec()[Side::Bottom.index() as int],
    {
        let i: usize = Side::Bottom.into();
        self.texture_index[i]
    }

    pub fn mining_cat(&self) -> (r: MiningCategory)
        ensures
            r == self.mining_cat_spec(),
    {
        self.mining_cat
    }

    pub fn block_health(&self) -> (r: u16)
        ensures
            r == self.block_health_spec(),
    {
        self.block_health
    }

    /// The text `<BlockType name=NAME />`.
    pub fn to_string(&self) -> (r: String)
        ensures
            r@ == "<BlockType name="@ + self.name_spec() + " />"@,
    {
        let mut s = String::from_str("<BlockType name=");
        s.append(self.name.as_str());
        s.append(" />");
        s
    }
}

impl BlockType {
    /// Whether `self` has the name `name`, texture `side` on the front, back,
    /// left and right, texture `top` on the top and `bottom` on the bottom,
    /// the colours `c0` and `c1`, mining category `cat` and health `health`.
    pub open spec fn has(
        self,
        name: Seq<char>,
        side: u8,
        top: u8,
        bottom: u8,
        c0: Rgba8,
        c1: Rgba8,
        cat: MiningCategory,
        health: u16,
    ) -> bool {
        &&& self.name_spec() == name
        &&& self.tex_spec()@ == seq![side, side, top, bottom, side, side]
        &&& self.colors_spec()@ == seq![c0, c1]
        &&& self.mining_cat_spec() == cat
        &&& self.block_health_spec() == health
    }

    /// The 255 unnamed block types of voxel models: entry `i` has texture `i`
    /// on every side, white colours, no mining category and health 50.
    pub fn get_vox_types() -> (r: Vec<Self>)
        ensures
            r.len() == 255,
            forall|i: int|
                0 <= i < 255 ==> #[trigger] r[i].has(
                    ""@,
                    i as u8,
                    i as u8,
                    i as u8,
                    white_spec(),
                    white_spec(),
                    MiningCategory::NoTool,
                    50,
                ),
    {
        Self::init_vox_types()
    }

    fn init_vox_types() -> (r: Vec<Self>)
        ensures
            r.len() == 255,
            forall|i: int|
                0 <= i < 255 ==> #[trigger] r[i].has(
                    ""@,
                    i as u8,
                    i as u8,
                    i as u8,
                    white_spec(),
                    white_spec(),
                    MiningCategory::NoTool,
                    50,
                ),
    {
        let mut ret: Vec<Self> = Vec::new();
        let mut i: u8 = 0;
        while i < 255
            invariant
                ret.len() == i,
                forall|k: int|
                    0 <= k < i ==> #[trigger] ret[k].has(
                        ""@,
                        k as u8,
                        k as u8,
                        k as u8,
                        white_spec(),
                        white_spec(),
                        MiningCategory::NoTool,
                        50,
                    ),
            decreases 255 - i,
        {
            let b = Self::new("").with_texture(i);
            assert(b.tex_spec()@ =~= seq![i, i, i, i, i, i]);
            ret.push(b);
            i = i + 1;
        }
        ret
    }

    /// The block types of the game, indexed by block number (see
    /// [`is_default_block`]): 0 is air, then dirt, grass, stone and so on.
    #[verifier::rlimit(50)]
    pub fn new_default() -> (r: Vec<Self>)
        ensures
            r.len() == 24,
            forall|i: int| 0 <= i < 24 ==> #[trigger] is_default_block(r[i], i),
    {
        let mut v: Vec<Self> = Vec::new();
        v.push(BlockType::new("Air"));
        v.push(BlockType::new("Dirt").with_texture(1).with_colors(Rgba8::new(0x11, 0x0A, 0x00, 0xFF), Rgba8::new(0x20, 0x12, 0x00, 0xFF)).with_mining_cat(MiningCategory::Shovel(1)).with_block_health(200));
        v.push(BlockType::new("Grass").with_texture(16).with_texture_top(0).with_texture_bottom(1).with_colors(Rgba8::new(0x08, 0x12, 0x00, 0xFF), Rgba8::new(0x11, 0x0A, 0x00, 0xFF)).with_mining_cat(MiningCategory::Shovel(1)).with_block_health(250));
        v.push(BlockType::new("Stone").with_texture(2).with_colors(Rgba8::new(0x5E, 0x5E, 0x5E, 0xFF), Rgba8::new(0x48, 0x48, 0x48, 0xFF)).with_mining_cat(MiningCategory::Pickaxe(1)).with_block_health(800));
        v.push(BlockType::new("Coal").with_texture(3).with_colors(Rgba8::new(0x26, 0x26, 0x26, 0xFF), Rgba8::new(0x10, 0x10, 0x10, 0xFF)).with_mining_cat(MiningCategory::Pickaxe(1)).with_block_health(700));
        v.push(BlockType::new("Spruce log").with_texture(4).with_colors(Rgba8::new(0x25, 0x1B, 0x05, 0xFF), Rgba8::new(0x1D, 0x16, 0x07, 0xFF)).with_mining_cat(MiningCategory::Axe(1)).with_block_health(600));
        v.push(BlockType::new("Spruce leaves").with_texture(5).with_colors(Rgba8::new(0x12, 0x2C, 0x01, 0xFF), Rgba8::new(0x0F, 0x25, 0x01, 0xFF)).with_block_health(100));
        v.push(BlockType::new("Dry grass").with_texture(22).with_texture_top(6).with_texture_bottom(1).with_colors(Rgba8::new(0x4B, 0x64, 0x11, 0xFF), Rgba8::new(0x4F, 0x23, 0x0A, 0xFF)).with_mining_cat(MiningCategory::Shovel(1)).with_block_health(200));
        v.push(BlockType::new("Roots").with_texture(7).with_colors(Rgba8::new(0x3E, 0x32, 0x14, 0xFF), Rgba8::new(0x29, 0x20, 0x0D, 0xFF)).with_mining_cat(MiningCategory::Shovel(1)).with_block_health(500));
        v.push(BlockType::new("Obsidian").with_texture(8).with_colors(Rgba8::new(0x22, 0x22, 0x22, 0xFF), Rgba8::new(0x17, 0x17, 0x17, 0xFF)).with_mining_cat(MiningCategory::Pickaxe(2)).with_block_health(1400));
        v.push(BlockType::new("Oak log").with_texture(9).with_colors(Rgba8::new(0x3C, 0x2C, 0x08, 0xFF), Rgba8::new(0x2E, 0x24, 0x08, 0xFF)).with_mining_cat(MiningCategory::Axe(1)).with_block_health(700));
        v.push(BlockType::new("Oak leaves").with_texture(10).with_colors(Rgba8::new(0x27, 0x42, 0x00, 0xFF), Rgba8::new(0x18, 0x33, 0x00, 0xFF)).with_block_health(100));
        v.push(BlockType::new("Iron ore (hematite)").with_texture(11).with_colors(Rgba8::new(0x72, 0x5B, 0x5B, 0xFF), Rgba8::new(0x5E, 0x5E, 0x5E, 0xFF)).with_mining_cat(MiningCategory::Pickaxe(1)).with_block_health(1000));
        v.push(BlockType::new("Marble block").with_texture(12).with_colors(Rgba8::new(0xF0, 0xF0, 0xF0, 0xFF), Rgba8::new(0xF0, 0xF0, 0xF0, 0xFF)).with_mining_cat(MiningCategory::Pickaxe(1)).with_block_health(1000));
        v.push(BlockType::new("Marble pillar").with_texture(13).with_texture_top(12).with_texture_bottom(12).with_colors(Rgba8::new(0xF0, 0xF0, 0xF0, 0xFF), Rgba8::new(0xF0, 0xF0, 0xF0, 0xFF)).with_mining_cat(MiningCategory::Pickaxe(1)).with_block_health(1000));
        v.push(BlockType::new("Marble blocks").with_texture(14).with_colors(Rgba8::new(0xF0, 0xF0, 0xF0, 0xFF), Rgba8::new(0xF0, 0xF0, 0xF0, 0xFF)).with_mining_cat(MiningCategory::Pickaxe(1)).with_block_health(1000));
        v.push(BlockType::new("Acacia leaves").with_texture(15).with_colors(Rgba8::new(0x02, 0x30, 0x00, 0xFF), Rgba8::new(0x32, 0x6F, 0x1C, 0xFF)).with_block_health(100));
        v.push(BlockType::new("Boards").with_texture(17).with_colors(Rgba8::new(0x8F, 0x67, 0x09, 0xFF), Rgba8::new(0xAF, 0x80, 0x13, 0xFF)).with_mining_cat(MiningCategory::Axe(1)).with_block_health(400));
        v.push(BlockType::new("Crystals").with_texture(18).with_colors(Rgba8::new(0xE8, 0x7C, 0x99, 0xFF), Rgba8::new(0xB5, 0x24, 0x4D, 0xFF)).with_mining_cat(MiningCategory::Pickaxe(3)).with_block_health(2000));
        v.push(BlockType::new("Sakura leaves").with_texture(19).with_colors(Rgba8::new(0xE8, 0x7C, 0x99, 0xFF), Rgba8::new(0xB5, 0x25, 0x4D, 0xFF)).with_block_health(100));
        v.push(BlockType::new("Birch log").with_texture(20).with_colors(Rgba8::new(0x55, 0x52, 0x52, 0xFF), Rgba8::new(0xA5, 0xA2, 0xA2, 0xFF)).with_mining_cat(MiningCategory::Axe(1)).with_block_health(600));
        v.push(BlockType::new("Flower bush").with_texture(21).with_colors(Rgba8::new(0x27, 0x42, 0x00, 0xFF), Rgba8::new(0x18, 0x33, 0x00, 0xFF)).with_block_health(100));
        v.push(BlockType::new("Date bush").with_texture(23).with_colors(Rgba8::new(0x4F, 0x33, 0x00, 0xFF), Rgba8::new(0x94, 0x83, 0x12, 0xFF)).with_block_health(100));
        v.push(BlockType::new("Sand").with_texture(24).with_colors(Rgba8::new(0xEC, 0xD1, 0x95, 0xFF), Rgba8::new(0xD3, 0xA7, 0x48, 0xFF)).with_block_health(140));
        assert forall|i: int| 0 <= i < 24 implies #[trigger] is_default_block(v[i], i) by {
            assert(v[i].tex_spec()@ =~= seq![
                v[i].tex_spec()[0],
                v[i].tex_spec()[1],
                v[i].tex_spec()[2],
                v[i].tex_spec()[3],
                v[i].tex_spec()[4],
                v[i].tex_spec()[5],
            ]);
        }
        v
    }
}

/// Whether `b` is entry `i` of the default block types: its name, its
/// textures (one for the sides, one for the top, one for the bottom), its
/// two colours, its mining category and its health.
pub open spec fn is_default_block(b: BlockType, i: int) -> bool {
    if i == 0 {
        b.has("Air"@, 0, 0, 0, Rgba8 { r: 255, g: 255, b: 255, a: 255 }, Rgba8 { r: 255, g: 255, b: 255, a: 255 }, MiningCategory::NoTool, 50)
    } else if i == 1 {
        b.has("Dirt"@, 1, 1, 1, Rgba8 { r: 0x11, g: 0x0A, b: 0x00, a: 0xFF }, Rgba8 { r: 0x20, g: 0x12, b: 0x00, a: 0xFF }, MiningCategory::Shovel(1), 200)
    } else if i == 2 {
        b.has("Grass"@, 16, 0, 1, Rgba8 { r: 0x08, g: 0x12, b: 0x00, a: 0xFF }, Rgba8 { r: 0x11, g: 0x0A, b: 0x00, a: 0xFF }, MiningCategory::Shovel(1), 250)
    } else if i == 3 {
        b.has("Stone"@, 2, 2, 2, Rgba8 { r: 0x5E, g: 0x5E, b: 0x5E, a: 0xFF }, Rgba8 { r: 0x48, g: 0x48, b: 0x48, a: 0xFF }, MiningCategory::Pickaxe(1), 800)
    } else if i == 4 {
        b.has("Coal"@, 3, 3, 3, Rgba8 { r: 0x26, g: 0x26, b: 0x26, a: 0xFF }, Rgba8 { r: 0x10, g: 0x10, b: 0x10, a: 0xFF }, MiningCategory::Pickaxe(1), 700)
    } else if i == 5 {
        b.has("Spruce log"@, 4, 4, 4, Rgba8 { r: 0x25, g: 0x1B, b: 0x05, a: 0xFF }, Rgba8 { r: 0x1D, g: 0x16, b: 0x07, a: 0xFF }, MiningCategory::Axe(1), 600)
    } else if i == 6 {
        b.has("Spruce leaves"@, 5, 5, 5, Rgba8 { r: 0x12, g: 0x2C, b: 0x01, a: 0xFF }, Rgba8 { r: 0x0F, g: 0x25, b: 0x01, a: 0xFF }, MiningCategory::NoTool, 100)
    } else if i == 7 {
        b.has("Dry grass"@, 22, 6, 1, Rgba8 { r: 0x4B, g: 0x64, b: 0x11, a: 0xFF }, Rgba8 { r: 0x4F, g: 0x23, b: 0x0A, a: 0xFF }, MiningCategory::Shovel(1), 200)
    } else if i == 8 {
        b.has("Roots"@, 7, 7, 7, Rgba8 { r: 0x3E, g: 0x32, b: 0x14, a: 0xFF }, Rgba8 { r: 0x29, g: 0x20, b: 0x0D, a: 0xFF }, MiningCategory::Shovel(1), 500)
    } else if i == 9 {
        b.has("Obsidian"@, 8, 8, 8, Rgba8 { r: 0x22, g: 0x22, b: 0x22, a: 0xFF }, Rgba8 { r: 0x17, g: 0x17, b: 0x17, a: 0xFF }, MiningCategory::Pickaxe(2), 1400)
    } else if i == 10 {
        b.has("Oak log"@, 9, 9, 9, Rgba8 { r: 0x3C, g: 0x2C, b: 0x08, a: 0xFF }, Rgba8 { r: 0x2E, g: 0x24, b: 0x08, a: 0xFF }, MiningCategory::Axe(1), 700)
    } else if i == 11 {
        b.has("Oak leaves"@, 10, 10, 10, Rgba8 { r: 0x27, g: 0x42, b: 0x00, a: 0xFF }, Rgba8 { r: 0x18, g: 0x33, b: 0x00, a: 0xFF }, MiningCategory::NoTool, 100)
    } else if i == 12 {
        b.has("Iron ore (hematite)"@, 11, 11, 11, Rgba8 { r: 0x72, g: 0x5B, b: 0x5B, a: 0xFF }, Rgba8 { r: 0x5E, g: 0x5E, b: 0x5E, a: 0xFF }, MiningCategory::Pickaxe(1), 1000)
    } else if i == 13 {
        b.has("Marble block"@, 12, 12, 12, Rgba8 { r: 0xF0, g: 0xF0, b: 0xF0, a: 0xFF }, Rgba8 { r: 0xF0, g: 0xF0, b: 0xF0, a: 0xFF }, MiningCategory::Pickaxe(1), 1000)
    } else if i == 14 {
        b.has("Marble pillar"@, 13, 12, 12, Rgba8 { r: 0xF0, g: 0xF0, b: 0xF0, a: 0xFF }, Rgba8 { r: 0xF0, g: 0xF0, b: 0xF0, a: 0xFF }, MiningCategory::Pickaxe(1), 1000)
    } else if i == 15 {
        b.has("Marble blocks"@, 14, 14, 14, Rgba8 { r: 0xF0, g: 0xF0, b: 0xF0, a: 0xFF }, Rgba8 { r: 0xF0, g: 0xF0, b: 0xF0, a: 0xFF }, MiningCategory::Pickaxe(1), 1000)
    } else if i == 16 {
        b.has("Acacia leaves"@, 15, 15, 15, Rgba8 { r: 0x02, g: 0x30, b: 0x00, a: 0xFF }, Rgba8 { r: 0x32, g: 0x6F, b: 0x1C, a: 0xFF }, MiningCategory::NoTool, 100)
    } else if i == 17 {
        b.has("Boards"@, 17, 17, 17, Rgba8 { r: 0x8F, g: 0x67, b: 0x09, a: 0xFF }, Rgba8 { r: 0xAF, g: 0x80, b: 0x13, a: 0xFF }, MiningCategory::Axe(1), 400)
    } else if i == 18 {
        b.has("Crystals"@, 18, 18, 18, Rgba8 { r: 0xE8, g: 0x7C, b: 0x99, a: 0xFF }, Rgba8 { r: 0xB5, g: 0x24, b: 0x4D, a: 0xFF }, MiningCategory::Pickaxe(3), 2000)
    } else if i == 19 {
        b.has("Sakura leaves"@, 19, 19, 19, Rgba8 { r: 0xE8, g: 0x7C, b: 0x99, a: 0xFF }, Rgba8 { r: 0xB5, g: 0x25, b: 0x4D, a: 0xFF }, MiningCategory::NoTool, 100)
    } else if i == 20 {
        b.has("Birch log"@, 20, 20, 20, Rgba8 { r: 0x55, g: 0x52, b: 0x52, a: 0xFF }, Rgba8 { r: 0xA5, g: 0xA2, b: 0xA2, a: 0xFF }, MiningCategory::Axe(1), 600)
    } else if i == 21 {
        b.has("Flower bush"@, 21, 21, 21, Rgba8 { r: 0x27, g: 0x42, b: 0x00, a: 0xFF }, Rgba8 { r: 0x18, g: 0x33, b: 0x00, a: 0xFF }, MiningCategory::NoTool, 100)
    } else if i == 22 {
        b.has("Date bush"@, 23, 23, 23, Rgba8 { r: 0x4F, g: 0x33, b: 0x00, a: 0xFF }, Rgba8 { r: 0x94, g: 0x83, b: 0x12, a: 0xFF }, MiningCategory::NoTool, 100)
    } else if i == 23 {
        b.has("Sand"@, 24, 24, 24, Rgba8 { r: 0xEC, g: 0xD1, b: 0x95, a: 0xFF }, Rgba8 { r: 0xD3, g: 0xA7, b: 0x48, a: 0xFF }, MiningCategory::NoTool, 140)
    } else {
        false
    }
}

} // verus!
