//! Handles of the GPU objects the renderer creates, and the libraries that
//! keep the loaded ones alive until they are unloaded.
//!
//! A library holds shared pointers; an entry is found again by pointer
//! identity, as the renderer hands out the very pointer it recorded.

use std::rc::Rc;
use vstd::prelude::*;

verus! {

/// A second pointer to the allocation of `item` (`Rc::clone`).
#[verifier::external_body]
fn share<T>(item: &Rc<T>) -> (shared: Rc<T>)
    ensures
        shared == *item,
{
    Rc::clone(item)
}

/// Whether `a` and `b` point to the same allocation (`Rc::ptr_eq`); when they
/// do they hold the same value.  Which allocation a pointer names is not
/// modelled, so nothing is said when they do not.
#[verifier::external_body]
fn same_allocation<T>(a: &Rc<T>, b: &Rc<T>) -> (same: bool)
    ensures
        same ==> *a == *b,
{
    Rc::ptr_eq(a, b)
}

/// The first position of `items` whose pointer is `item`.
fn position_of<T>(items: &Vec<Rc<T>>, item: &Rc<T>) -> (position: Option<usize>)
    ensures
        position matches Some(i) ==> i < items@.len() && items@[i as int] == *item,
{
    let mut k: usize = 0;
    while k < items.len()
        invariant
            k <= items.len(),
        decreases items.len() - k,
    {
        if same_allocation(&items[k], item) {
            return Some(k);
        }
        k += 1;
    }
    None
}

/// A texture object: its name and the target it is bound to.
pub struct Texture {
    id: u32,
    target: u32,
}

/// The abstract value of a [`Texture`].
pub struct TextureView {
    pub id: u32,
    pub target: u32,
}

impl View for Texture {
    type V = TextureView;

    closed spec fn view(&self) -> TextureView {
        TextureView { id: self.id, target: self.target }
    }
}

impl Texture {
    /// The texture object `id`, bound at `target`.
    pub fn from_handle(id: u32, target: u32) -> (texture: Self)
        ensures
            texture@ == (TextureView { id, target }),
    {
        Texture { id, target }
    }

    pub fn id(&self) -> (id: u32)
        ensures
            id == self@.id,
    {
        self.id
    }

    pub fn target(&self) -> (target: u32)
        ensures
            target == self@.target,
    {
        self.target
    }
}

/// An indexed triangle mesh on the GPU: its vertex array, its two buffers
/// and the number of indices it draws.
pub struct Mesh {
    vertex_array_id: u32,
    vertex_buffer_id: u32,
    element_buffer_id: u32,
    vertex_count: i32,
}

/// The abstract value of a [`Mesh`].
pub struct MeshView {
    pub vertex_array_id: u32,
    pub vertex_buffer_id: u32,
    pub element_buffer_id: u32,
    pub vertex_count: i32,
}

impl View for Mesh {
    type V = MeshView;

    closed spec fn view(&self) -> MeshView {
        MeshView {
            vertex_array_id: self.vertex_array_id,
            vertex_buffer_id: self.vertex_buffer_id,
            element_buffer_id: self.element_buffer_id,
            vertex_count: self.vertex_count,
        }
    }
}

impl Mesh {
    /// The mesh held in the given objects, drawing `index_count` indices
    /// (kept as an `i32`, the type the draw call takes).
    pub fn from_buffers(
        vertex_array_id: u32,
        vertex_buffer_id: u32,
        element_buffer_id: u32,
        index_count: usize,
    ) -> (mesh: Self)
        ensures
            mesh@ == (MeshView {
                vertex_array_id,
                vertex_buffer_id,
                element_buffer_id,
                vertex_count: index_count as i32,
            }),
    {
        Mesh {
            vertex_array_id,
            vertex_buffer_id,
            element_buffer_id,
            vertex_count: #[verifier::truncate] (index_count as i32),
        }
    }

    pub fn vertex_array_id(&self) -> (id: u32)
        ensures
            id == self@.vertex_array_id,
    {
        self.vertex_array_id
    }

    pub fn vertex_buffer_id(&self) -> (id: u32)
        ensures
            id == self@.vertex_buffer_id,
    {
        self.vertex_buffer_id
    }

    pub fn element_buffer_id(&self) -> (id: u32)
        ensures
            id == self@.element_buffer_id,
    {
        self.element_buffer_id
    }

    pub fn vertex_count(&self) -> (count: i32)
        ensures
            count == self@.vertex_count,
    {
        self.vertex_count
    }
}

/// A linked shader program and the sources it was built from.
pub struct Shader {
    id: u32,
    vertex_shader_source: String,
    fragment_shader_source: String,
}

/// The abstract value of a [`Shader`].
pub struct ShaderView {
    pub id: u32,
    pub vertex_shader_source: Seq<char>,
    pub fragment_shader_source: Seq<char>,
}

impl View for Shader {
    type V = ShaderView;

    closed spec fn view(&self) -> ShaderView {
        ShaderView {
            id: self.id,
            vertex_shader_source: self.vertex_shader_source@,
            fragment_shader_source: self.fragment_shader_source@,
        }
    }
}

impl Shader {
    /// The program `id` built from the two sources.
    pub fn from_program(id: u32, vertex_shader_source: String, fragment_shader_source: String) -> (shader: Self)
        ensures
            shader@ == (ShaderView {
                id,
                vertex_shader_source: vertex_shader_source@,
                fragment_shader_source: fragment_shader_source@,
            }),
    {
        Shader { id, vertex_shader_source, fragment_shader_source }
    }

    pub fn id(&self) -> (id: u32)
        ensures
            id == self@.id,
    {
        self.id
    }

    pub fn vertex_shader_source(&self) -> (source: &str)
        ensures
            source@ == self@.vertex_shader_source,
    {
        self.vertex_shader_source.as_str()
    }

    pub fn fragment_shader_source(&self) -> (source: &str)
        ensures
            source@ == self@.fragment_shader_source,
    {
        self.fragment_shader_source.as_str()
    }
}

/// The textures that have been loaded and not unloaded.
pub struct TextureLibrary<T> {
    loaded_textures: Vec<Rc<T>>,
}

impl<T> TextureLibrary<T> {
    /// What the library holds, oldest first.
    pub closed spec fn loaded(&self) -> Seq<Rc<T>> {
        self.loaded_textures@
    }

    /// An empty library.
    pub fn new() -> (library: Self)
        ensures
            library.loaded() == Seq::<Rc<T>>::empty(),
    {
        TextureLibrary { loaded_textures: Vec::new() }
    }

    /// How many textures the library holds.
    pub fn len(&self) -> (n: usize)
        ensures
            n == self.loaded().len(),
    {
        self.loaded_textures.len()
    }

    /// Records a freshly loaded texture and hands back a shared pointer to it.
    pub fn add_loaded(&mut self, texture: Rc<T>) -> (shared: Rc<T>)
        ensures
            final(self).loaded() == old(self).loaded().push(texture),
            shared == texture,
    {
        let shared = share(&texture);
        self.loaded_textures.push(texture);
        shared
    }

    /// Drops the entry at `position`, if there is one; says whether it did.
    pub fn unload_position(&mut self, position: Option<usize>) -> (removed: bool)
        requires
            position matches Some(i) ==> i < old(self).loaded().len(),
        ensures
            removed == position is Some,
            position matches Some(i) ==> final(self).loaded() == old(self).loaded().remove(i as int),
            position is None ==> final(self).loaded() == old(self).loaded(),
    {
        match position {
            Some(index) => {
                self.loaded_textures.remove(index);
                true
            },
            None => false,
        }
    }

    /// Drops the entry that points to `texture`, if there is one; says whether it did.
    pub fn unload(&mut self, texture: &Rc<T>) -> (removed: bool)
        ensures
            removed ==> exists|i: int|
                0 <= i < old(self).loaded().len() && old(self).loaded()[i] == *texture && final(self).loaded() == old(self).loaded().remove(i),
            !removed ==> final(self).loaded() == old(self).loaded(),
    {
        let position = position_of(&self.loaded_textures, texture);
        self.unload_position(position)
    }

    /// Drops every entry.
    pub fn unload_all(&mut self)
        ensures
            final(self).loaded() == Seq::<Rc<T>>::empty(),
    {
        self.loaded_textures.clear();
    }
}

/// The meshes that have been created and not unloaded.
pub struct MeshLibrary<T> {
    loaded_meshes: Vec<Rc<T>>,
}

impl<T> MeshLibrary<T> {
    /// What the library holds, oldest first.
    pub closed spec fn loaded(&self) -> Seq<Rc<T>> {
        self.loaded_meshes@
    }

    /// An empty library.
    pub fn new() -> (library: Self)
        ensures
            library.loaded() == Seq::<Rc<T>>::empty(),
    {
        MeshLibrary { loaded_meshes: Vec::new() }
    }

    /// How many meshs the library holds.
    pub fn len(&self) -> (n: usize)
        ensures
            n == self.loaded().len(),
    {
        self.loaded_meshes.len()
    }

    /// Records a freshly loaded mesh and hands back a shared pointer to it.
    pub fn add_loaded(&mut self, mesh: Rc<T>) -> (shared: Rc<T>)
        ensures
            final(self).loaded() == old(self).loaded().push(mesh),
            shared == mesh,
    {
        let shared = share(&mesh);
        self.loaded_meshes.push(mesh);
        shared
    }

    /// Drops the entry at `position`, if there is one; says whether it did.
    pub fn unload_position(&mut self, position: Option<usize>) -> (removed: bool)
        requires
            position matches Some(i) ==> i < old(self).loaded().len(),
        ensures
            removed == position is Some,
            position matches Some(i) ==> final(self).loaded() == old(self).loaded().remove(i as int),
            position is None ==> final(self).loaded() == old(self).loaded(),
    {
        match position {
            Some(index) => {
                self.loaded_meshes.remove(index);
                true
            },
            None => false,
        }
    }

    /// Drops the entry that points to `mesh`, if there is one; says whether it did.
    pub fn unload(&mut self, mesh: &Rc<T>) -> (removed: bool)
        ensures
            removed ==> exists|i: int|
                0 <= i < old(self).loaded().len() && old(self).loaded()[i] == *mesh && final(self).loaded() == old(self).loaded().remove(i),
            !removed ==> final(self).loaded() == old(self).loaded(),
    {
        let position = position_of(&self.loaded_meshes, mesh);
        self.unload_position(position)
    }

    /// Drops every entry.
    pub fn unload_all(&mut self)
        ensures
            final(self).loaded() == Seq::<Rc<T>>::empty(),
    {
        self.loaded_meshes.clear();
    }
}

/// The shader programs that have been loaded and not unloaded.
pub struct ShaderLibrary<T> {
    loaded_shaders: Vec<Rc<T>>,
}

impl<T> ShaderLibrary<T> {
    /// What the library holds, oldest first.
    pub closed spec fn loaded(&self) -> Seq<Rc<T>> {
        self.loaded_shaders@
    }

    /// An empty library.
    pub fn new() -> (library: Self)
        ensures
            library.loaded() == Seq::<Rc<T>>::empty(),
    {
        ShaderLibrary { loaded_shaders: Vec::new() }
    }

    /// How many shaders the library holds.
    pub fn len(&self) -> (n: usize)
        ensures
            n == self.loaded().len(),
    {
        self.loaded_shaders.len()
    }

    /// Records a freshly loaded shader and hands back a shared pointer to it.
    pub fn add_loaded(&mut self, shader: Rc<T>) -> (shared: Rc<T>)
        ensures
            final(self).loaded() == old(self).loaded().push(shader),
            shared == shader,
    {
        let shared = share(&shader);
        self.loaded_shaders.push(shader);
        shared
    }

    /// Drops the entry at `position`, if there is one; says whether it did.
    pub fn unload_position(&mut self, position: Option<usize>) -> (removed: bool)
        requires
            position matches Some(i) ==> i < old(self).loaded().len(),
        ensures
            removed == position is Some,
            position matches Some(i) ==> final(self).loaded() == old(self).loaded().remove(i as int),
            position is None ==> final(self).loaded() == old(self).loaded(),
    {
        match position {
            Some(index) => {
                self.loaded_shaders.remove(index);
                true
            },
            None => false,
        }
    }

    /// Drops the entry that points to `shader`, if there is one; says whether it did.
    pub fn unload(&mut self, shader: &Rc<T>) -> (removed: bool)
        ensures
            removed ==> exists|i: int|
                0 <= i < old(self).loaded().len() && old(self).loaded()[i] == *shader && final(self).loaded() == old(self).loaded().remove(i),
            !removed ==> final(self).loaded() == old(self).loaded(),
    {
        let position = position_of(&self.loaded_shaders, shader);
        self.unload_position(position)
    }

    /// Drops every entry.
    pub fn unload_all(&mut self)
        ensures
            final(self).loaded() == Seq::<Rc<T>>::empty(),
    {
        self.loaded_shaders.clear();
    }
}

} // verus!
