//! The scene, the tiles it is cut into, and the partitioner that cuts it.

use vstd::prelude::*;
use vstd::arithmetic::div_mod::lemma_fundamental_div_mod;
use crate::raster::{
    lemma_pixel_at_in_raster, lemma_tile_count_by_division, lemma_tiles_from_len, partition,
    pixel_at, tile_count, tile_len, tile_pixels, tiles_from,
};
use crate::ray::Ray;
use crate::square::{
    integer_sqrt, is_perfect_square, is_positive_square, lemma_perfect_square_by_root,
    perfect_square_root, sqrt_floor,
};

verus! {

/// Width of the raster of a scene made by [`Scene::with_eye`].
pub const DEFAULT_SCREEN_WIDTH: u32 = 2000;

/// Height of the raster of a scene made by [`Scene::with_eye`].
pub const DEFAULT_SCREEN_HEIGHT: u32 = 2000;

/// What is rendered for one frame: where the camera stands and how many
/// pixels the picture has.
pub struct Scene {
    /// Number of pixel columns.
    pub screen_width: u32,
    /// Number of pixel rows.
    pub screen_height: u32,
    /// Position of the camera.
    pub eye: ultraviolet::Vec3,
}

impl Scene {
    /// Number of pixels of the raster.
    pub open spec fn pixel_count(&self) -> nat {
        (self.screen_width as nat) * (self.screen_height as nat)
    }

    /// A scene of the default raster size, seen from `eye`.
    pub fn with_eye(eye: ultraviolet::Vec3) -> (scene: Scene)
        ensures
            scene.eye == eye,
            scene.screen_width == DEFAULT_SCREEN_WIDTH,
            scene.screen_height == DEFAULT_SCREEN_HEIGHT,
    {
        Scene { screen_width: DEFAULT_SCREEN_WIDTH, screen_height: DEFAULT_SCREEN_HEIGHT, eye }
    }

    /// Number of pixels of the raster.
    pub fn total_pixels(&self) -> (total: u64)
        ensures
            total == self.pixel_count(),
    {
        let width: u64 = self.screen_width as u64;
        let height: u64 = self.screen_height as u64;
        assert(width * height <= 0xFFFF_FFFE_0000_0001) by (nonlinear_arith)
            requires
                width <= 0xFFFF_FFFF,
                height <= 0xFFFF_FFFF,
        ;
        width * height
    }
}

/// Why a partitioner could not be set up.
#[derive(Clone, Copy, Debug, PartialEq, Eq, Structural)]
pub enum ConfigError {
    /// The tile capacity is not the square of a positive whole number, so a
    /// full tile has no square dispatch grid.
    CapacityNotSquare,
}

impl ConfigError {
    /// The error in words.
    pub fn message(&self) -> (text: String)
        ensures
            text@ == "`size` must be a square of some number"@,
    {
        "`size` must be a square of some number".to_owned()
    }
}

/// A tile: a batch of rays that is dispatched to the compute backend in one
/// go, together with the capacity that the partitioner was asked for.
pub struct SceneChunk {
    data: Vec<Ray>,
    size: usize,
}

impl View for SceneChunk {
    type V = Seq<Ray>;

    /// The rays of the tile, in the order of their pixels.
    closed spec fn view(&self) -> Seq<Ray> {
        self.data@
    }
}

impl SceneChunk {
    /// The capacity that was asked for.
    pub closed spec fn capacity(&self) -> nat {
        self.size as nat
    }

    /// The pixels of the rays, in order.
    pub open spec fn pixels(&self) -> Seq<(nat, nat)> {
        Seq::new(self@.len(), |i: int| self@[i].pixel())
    }

    /// The tile holds as many rays as it has room for.
    pub open spec fn is_full(&self) -> bool {
        self@.len() == self.capacity()
    }

    /// The tile is one that a partitioner hands out: its capacity is a
    /// positive square, and it holds at least one ray and at most as many as
    /// the capacity.
    pub open spec fn well_formed(&self) -> bool {
        &&& is_positive_square(self.capacity())
        &&& 0 < self@.len() <= self.capacity()
    }

    /// The extents of the two-dimensional grid over which the tile is
    /// dispatched: a square for a full tile, a strip of one row otherwise.
    pub open spec fn dispatch_shape(&self) -> (nat, nat) {
        if self.is_full() {
            (sqrt_floor(self.capacity()), sqrt_floor(self.capacity()))
        } else {
            (self@.len(), 1)
        }
    }

    /// Both extents of the dispatch grid fit in 32 bits. Only a strip of
    /// more than `u32::MAX` rays does not.
    pub open spec fn dispatchable(&self) -> bool {
        self.is_full() || self@.len() <= u32::MAX
    }

    /// Makes a tile of the given rays and capacity.
    pub fn from_vec(data: Vec<Ray>, size: usize) -> (chunk: SceneChunk)
        ensures
            chunk@ == data@,
            chunk.capacity() == size,
    {
        SceneChunk { data, size }
    }

    /// Number of rays in the tile.
    pub fn len(&self) -> (n: usize)
        ensures
            n == self@.len(),
    {
        self.data.len()
    }

    /// The capacity that was asked for.
    pub fn requested_capacity(&self) -> (n: usize)
        ensures
            n == self.capacity(),
    {
        self.size
    }

    /// The rays of the tile.
    pub fn as_ref(&self) -> (rays: &Vec<Ray>)
        ensures
            rays@ == self@,
    {
        &self.data
    }

    /// Whether both extents of the dispatch grid fit in 32 bits.
    pub fn is_dispatchable(&self) -> (fits: bool)
        ensures
            fits == self.dispatchable(),
    {
        self.data.len() == self.size || self.data.len() as u64 <= u32::MAX as u64
    }

    /// The extents of the grid over which the tile is dispatched:
    /// `(root, root)` for a full tile of capacity `root * root`, and
    /// `(len, 1)` for a tile of `len` rays that is not full.
    pub fn get_dimensions(&self) -> (dims: (u32, u32))
        requires
            self.dispatchable(),
        ensures
            dims.0 == self.dispatch_shape().0,
            dims.1 == self.dispatch_shape().1,
            self.is_full() && is_perfect_square(self.capacity()) ==> dims.0 * dims.1
                == self@.len(),
            !self.is_full() ==> dims.0 * dims.1 == self@.len(),
    {
        if self.size == self.data.len() {
            let root: u32 = integer_sqrt(self.size as u64);
            proof {
                lemma_perfect_square_by_root(self.size as nat, root as nat);
            }
            (root, root)
        } else {
            (self.data.len() as u32, 1)
        }
    }
}

/// Every pixel of the raster of `scene` may be handed to `cast`.
pub open spec fn casts_raster<F: Fn(u32, u32) -> ultraviolet::Vec3>(cast: F, scene: Scene) -> bool {
    forall|x: u32, y: u32|
        x < scene.screen_width && y < scene.screen_height ==> call_requires(cast, (x, y))
}

/// The pixels of each tile of a list, tile by tile.
pub open spec fn pixels_of(tiles: Seq<SceneChunk>) -> Seq<Seq<(nat, nat)>> {
    Seq::new(tiles.len(), |k: int| tiles[k].pixels())
}

/// The partitioner: walks the raster of a scene row by row and hands out its
/// pixels as tiles of rays, `capacity` rays at a time.
///
/// The direction of a ray depends on the camera model, which works in
/// floating point. The partitioner therefore takes it from `cast`, a function
/// from the column and row of a pixel to the direction of the ray through
/// that pixel, and decides everything else itself: which pixels go into
/// which tile, in which order, and where each ray starts.
pub struct SceneIterator<'a, F> {
    scene: &'a Scene,
    size: usize,
    stopped: u64,
    cast: F,
}

impl<'a, F: Fn(u32, u32) -> ultraviolet::Vec3> SceneIterator<'a, F> {
    /// The scene whose raster is walked.
    pub closed spec fn scene(&self) -> Scene {
        *self.scene
    }

    /// Number of rays of a full tile.
    pub closed spec fn capacity(&self) -> nat {
        self.size as nat
    }

    /// Id of the next pixel that has not been handed out.
    pub closed spec fn cursor(&self) -> nat {
        self.stopped as nat
    }

    /// The function that gives each ray its direction.
    pub closed spec fn caster(&self) -> F {
        self.cast
    }

    /// The partitioner is in a state that `new` and `next` leave it in.
    pub open spec fn wf(&self) -> bool {
        &&& is_positive_square(self.capacity())
        &&& self.cursor() <= self.scene().pixel_count()
        &&& casts_raster(self.caster(), self.scene())
    }

    /// No pixel is left.
    pub open spec fn exhausted(&self) -> bool {
        self.cursor() >= self.scene().pixel_count()
    }

    /// The pixels of the tile that `next` hands out in this state.
    pub open spec fn next_pixels(&self) -> Seq<(nat, nat)> {
        tile_pixels(
            self.scene().screen_width as nat,
            self.scene().pixel_count(),
            self.capacity(),
            self.cursor(),
        )
    }

    /// The pixels of all tiles that are still to come, tile by tile.
    pub open spec fn remaining_tiles(&self) -> Seq<Seq<(nat, nat)>> {
        tiles_from(
            self.scene().screen_width as nat,
            self.scene().pixel_count(),
            self.capacity(),
            self.cursor(),
        )
    }

    /// `ray` is a ray that this partitioner makes for `pixel`: it targets
    /// that pixel, starts at the eye of the scene, and points where the
    /// caster says.
    pub open spec fn makes(&self, ray: Ray, pixel: (nat, nat)) -> bool {
        &&& ray.pixel() == pixel
        &&& ray.orig == self.scene().eye
        &&& call_ensures(self.caster(), (ray.screen_x, ray.screen_y), ray.dir)
    }

    /// `chunk` is the tile that `next` hands out in this state.
    pub open spec fn yields(&self, chunk: SceneChunk) -> bool {
        &&& chunk.capacity() == self.capacity()
        &&& chunk.pixels() == self.next_pixels()
        &&& forall|i: int| 0 <= i < chunk@.len() ==> self.makes(#[trigger] chunk@[i], chunk.pixels()[i])
    }

    /// Sets up the partitioner of `scene` for tiles of `size` rays, at the
    /// first pixel. Fails unless `size` is the square of a positive whole
    /// number.
    pub fn new(scene: &'a Scene, size: usize, cast: F) -> (made: Result<Self, ConfigError>)
        requires
            casts_raster(cast, *scene),
        ensures
            made is Ok <==> is_positive_square(size as nat),
            made matches Ok(it) ==> it.wf() && it.scene() == *scene && it.capacity() == size
                && it.cursor() == 0 && it.caster() == cast && it.remaining_tiles() == partition(
                scene.screen_width as nat,
                scene.screen_height as nat,
                size as nat,
            ),
            made matches Err(e) ==> e == ConfigError::CapacityNotSquare,
    {
        let root: Option<u32> = perfect_square_root(size as u64);
        if size > 0 && root.is_some() {
            Ok(SceneIterator { scene, size, stopped: 0, cast })
        } else {
            Err(ConfigError::CapacityNotSquare)
        }
    }

    /// Hands out the next tile, or `None` once every pixel has been handed
    /// out. Every tile but the last of a raster is full.
    pub fn next(&mut self) -> (tile: Option<SceneChunk>)
        requires
            old(self).wf(),
        ensures
            final(self).wf(),
            final(self).scene() == old(self).scene(),
            final(self).capacity() == old(self).capacity(),
            final(self).caster() == old(self).caster(),
            old(self).exhausted() ==> tile is None && final(self).cursor() == old(self).cursor(),
            !old(self).exhausted() ==> (tile matches Some(chunk) && old(self).yields(chunk)
                && chunk.well_formed() && final(self).cursor() == old(self).cursor()
                + chunk@.len()),
    {
        let total: u64 = self.scene.total_pixels();
        if self.stopped >= total {
            return None;
        }
        let width: u64 = self.scene.screen_width as u64;
        let remaining: u64 = total - self.stopped;
        let len: usize = if remaining < self.size as u64 {
            remaining as usize
        } else {
            self.size
        };
        let mut rays: Vec<Ray> = Vec::new();
        let mut i: usize = 0;
        while i < len
            invariant
                i <= len,
                rays@.len() == i,
                self.wf(),
                *self == *old(self),
                total == self.scene().pixel_count(),
                width == self.scene().screen_width,
                self.stopped + len <= total,
                forall|j: int|
                    0 <= j < i ==> self.makes(
                        #[trigger] rays@[j],
                        pixel_at((self.stopped + j) as nat, width as nat),
                    ),
            decreases len - i,
        {
            let id: u64 = self.stopped + i as u64;
            proof {
                lemma_pixel_at_in_raster(
                    id as nat,
                    self.scene.screen_width as nat,
                    self.scene.screen_height as nat,
                );
            }
            let y: u32 = (id / width) as u32;
            let x: u32 = (id % width) as u32;
            let dir = (self.cast)(x, y);
            rays.push(Ray::new(self.scene.eye, dir, None, x, y));
            i = i + 1;
        }
        let chunk = SceneChunk::from_vec(rays, self.size);
        proof {
            assert(chunk.pixels() =~= self.next_pixels());
        }
        self.stopped = self.stopped + len as u64;
        Some(chunk)
    }

    /// Number of tiles that are still to come: the number of pixels left,
    /// divided by the capacity and rounded up.
    pub fn count(&self) -> (n: u64)
        requires
            self.wf(),
        ensures
            n == self.remaining_tiles().len(),
            n == tile_count((self.scene().pixel_count() - self.cursor()) as nat, self.capacity()),
    {
        let total: u64 = self.scene.total_pixels();
        let remaining: u64 = total - self.stopped;
        let capacity: u64 = self.size as u64;
        let whole: u64 = remaining / capacity;
        let rest: u64 = remaining % capacity;
        proof {
            lemma_tiles_from_len(
                self.scene().screen_width as nat,
                self.scene().pixel_count(),
                self.capacity(),
                self.cursor(),
            );
            lemma_tile_count_by_division(remaining as nat, capacity as nat);
            lemma_fundamental_div_mod(remaining as int, capacity as int);
            assert(rest > 0 ==> whole < remaining) by (nonlinear_arith)
                requires
                    remaining == capacity * whole + rest,
                    capacity > 0,
            ;
        }
        if rest == 0 {
            whole
        } else {
            whole + 1
        }
    }

    /// Hands out all tiles that are still to come, in order.
    pub fn collect(self) -> (tiles: Vec<SceneChunk>)
        requires
            self.wf(),
        ensures
            pixels_of(tiles@) == self.remaining_tiles(),
            forall|k: int| 0 <= k < tiles@.len() ==> (#[trigger] tiles@[k]).well_formed(),
            forall|k: int, i: int|
                0 <= k < tiles@.len() && 0 <= i < tiles@[k]@.len() ==> self.makes(
                    #[trigger] tiles@[k]@[i],
                    self.remaining_tiles()[k][i],
                ),
    {
        let mut it = self;
        let mut tiles: Vec<SceneChunk> = Vec::new();
        let total: u64 = it.scene.total_pixels();
        while it.stopped < total
            invariant
                it.wf(),
                it.scene() == self.scene(),
                it.capacity() == self.capacity(),
                it.caster() == self.caster(),
                total == it.scene().pixel_count(),
                pixels_of(tiles@).add(it.remaining_tiles()) == self.remaining_tiles(),
                forall|k: int| 0 <= k < tiles@.len() ==> (#[trigger] tiles@[k]).well_formed(),
                forall|k: int, i: int|
                    0 <= k < tiles@.len() && 0 <= i < tiles@[k]@.len() ==> self.makes(
                        #[trigger] tiles@[k]@[i],
                        tiles@[k].pixels()[i],
                    ),
            decreases total - it.stopped,
        {
            let ghost before = it;
            let ghost done = tiles@;
            let tile = it.next();
            if let Some(chunk) = tile {
                tiles.push(chunk);
                proof {
                    assert(pixels_of(tiles@) =~= pixels_of(done).push(chunk.pixels()));
                    assert(chunk.pixels().len() == chunk@.len());
                    assert(it.cursor() == before.cursor() + tile_len(
                        before.scene().pixel_count(),
                        before.capacity(),
                        before.cursor(),
                    ));
                    assert(before.remaining_tiles() =~= seq![chunk.pixels()].add(
                        it.remaining_tiles(),
                    ));
                    assert(pixels_of(tiles@).add(it.remaining_tiles()) =~= pixels_of(done).add(
                        before.remaining_tiles(),
                    ));
                }
            }
        }
        proof {
            assert(it.remaining_tiles() =~= Seq::empty());
            assert(pixels_of(tiles@) =~= self.remaining_tiles());
        }
        tiles
    }
}

} // verus!
