//! The Type-Link Resolver: a total mapping from a documented type name to the
//! destination path of its documentation page. Unknown names and
//! primitive-like names map to the non-navigable placeholder anchor `#`;
//! a missing entry is a normal case, never an error.

use vstd::prelude::*;
use crate::text::str_eq;

verus! {

pub open spec fn spec_type_to_slug(t: Seq<char>) -> Seq<char> {
    if t == "Action"@ {
        "/globals/Action-Wheel/Action"@
    } else if t == "ActionWheelAPI"@ {
        "/globals/Action-Wheel"@
    } else if t == "Animation"@ {
        "/globals/Animations/Animation"@
    } else if t == "AnimationAPI"@ {
        "/globals/Animations"@
    } else if t == "AnyType"@ {
        "#"@
    } else if t == "AvatarAPI"@ {
        "/globals/Avatar"@
    } else if t == "Biome"@ {
        "/globals/World/Biome"@
    } else if t == "BlockState"@ {
        "/globals/World/BlockState"@
    } else if t == "BlockTask"@ {
        "/globals/Models/BlockTask"@
    } else if t == "Boolean"@ {
        "#"@
    } else if t == "Buffer"@ {
        "#"@
    } else if t == "ConfigAPI"@ {
        "/globals/Config"@
    } else if t == "EntityAPI"@ {
        "/globals/Player/Entity"@
    } else if t == "EntityNameplateCustomization"@ {
        "/globals/Nameplate/EntityNameplateCustomization"@
    } else if t == "EntityTask"@ {
        "/globals/Models/EntityTask"@
    } else if t == "Event"@ {
        "/globals/Events/Event"@
    } else if t == "Function"@ {
        "#"@
    } else if t == "Future"@ {
        "#"@
    } else if t == "HostAPI"@ {
        "/globals/Host"@
    } else if t == "HttpRequestBuilder"@ {
        "#"@
    } else if t == "InputStream"@ {
        "#"@
    } else if t == "Integer"@ {
        "#"@
    } else if t == "ItemStack"@ {
        "/globals/World/ItemStack"@
    } else if t == "ItemTask"@ {
        "/globals/Models/ItemTask"@
    } else if t == "JsonArray"@ {
        "#"@
    } else if t == "JsonBuilder"@ {
        "#"@
    } else if t == "JsonObject"@ {
        "#"@
    } else if t == "JsonSerializer"@ {
        "#"@
    } else if t == "Keybind"@ {
        "/globals/Keybinds/Keybind"@
    } else if t == "Matrix2"@ {
        "/globals/Matrices/Matrix2"@
    } else if t == "Matrix3"@ {
        "/globals/Matrices/Matrix3"@
    } else if t == "Matrix4"@ {
        "/globals/Matrices/Matrix4"@
    } else if t == "ModelPart"@ {
        "/globals/Models"@
    } else if t == "NameplateCustomization"@ {
        "/globals/Nameplate/NameplateCustomization"@
    } else if t == "NameplateCustomizationGroup"@ {
        "/globals/Nameplate/NameplateCustomizationGroup"@
    } else if t == "Number"@ {
        "#"@
    } else if t == "OutputStream"@ {
        "#"@
    } else if t == "Page"@ {
        "/globals/Action-Wheel/Page"@
    } else if t == "Particle"@ {
        "/globals/Particles/Particle"@
    } else if t == "ParticleAPI"@ {
        "/globals/Particles"@
    } else if t == "RenderTask"@ {
        "/globals/Models/RenderTask"@
    } else if t == "RendererAPI"@ {
        "/globals/Renderer"@
    } else if t == "Sound"@ {
        "/globals/Sounds"@
    } else if t == "SoundAPI"@ {
        "/globals/Sounds/Sound"@
    } else if t == "SpriteTask"@ {
        "/globals/Models/SpriteTask"@
    } else if t == "String"@ {
        "#"@
    } else if t == "Table"@ {
        "#"@
    } else if t == "TextTask"@ {
        "/globals/Models/TextTask"@
    } else if t == "Texture"@ {
        "/globals/Textures/Texture"@
    } else if t == "TextureAtlas"@ {
        "/globals/Textures/TextureAtlas"@
    } else if t == "VanillaPart"@ {
        "/globals/Vanilla-Model/VanillaPart"@
    } else if t == "Varargs"@ {
        "#"@
    } else if t == "Vector2"@ {
        "/globals/Vectors/Vector2"@
    } else if t == "Vector3"@ {
        "/globals/Vectors/Vector3"@
    } else if t == "Vector4"@ {
        "/globals/Vectors/Vector4"@
    } else if t == "Vertex"@ {
        "/globals/Models/Vertex"@
    } else if t == "ViewerAPI"@ {
        "/globals/Player/Viewer"@
    } else if t == "java.util.Objects"@ {
        "#"@
    } else if t == "java.util.Set"@ {
        "#"@
    } else if t == "net.minecraft.class_2561"@ {
        "#"@
    } else if t == "nil"@ {
        "#"@
    } else if t == "org.figuramc.figura.lua.ReadOnlyLuaTable"@ {
        "#"@
    } else {
        "#"@
    }
}

/// Maps a documented type name to its cross-reference destination; unknown
/// names and primitive-like names resolve to the placeholder anchor.
pub fn type_to_slug(t: &str) -> (r: &'static str)
    ensures
        r@ == spec_type_to_slug(t@),
{
    if str_eq(t, "Action") {
        "/globals/Action-Wheel/Action"
    } else if str_eq(t, "ActionWheelAPI") {
        "/globals/Action-Wheel"
    } else if str_eq(t, "Animation") {
        "/globals/Animations/Animation"
    } else if str_eq(t, "AnimationAPI") {
        "/globals/Animations"
    } else if str_eq(t, "AnyType") {
        "#"
    } else if str_eq(t, "AvatarAPI") {
        "/globals/Avatar"
    } else if str_eq(t, "Biome") {
        "/globals/World/Biome"
    } else if str_eq(t, "BlockState") {
        "/globals/World/BlockState"
    } else if str_eq(t, "BlockTask") {
        "/globals/Models/BlockTask"
    } else if str_eq(t, "Boolean") {
        "#"
    } else if str_eq(t, "Buffer") {
        "#"
    } else if str_eq(t, "ConfigAPI") {
        "/globals/Config"
    } else if str_eq(t, "EntityAPI") {
        "/globals/Player/Entity"
    } else if str_eq(t, "EntityNameplateCustomization") {
        "/globals/Nameplate/EntityNameplateCustomization"
    } else if str_eq(t, "EntityTask") {
        "/globals/Models/EntityTask"
    } else if str_eq(t, "Event") {
        "/globals/Events/Event"
    } else if str_eq(t, "Function") {
        "#"
    } else if str_eq(t, "Future") {
        "#"
    } else if str_eq(t, "HostAPI") {
        "/globals/Host"
    } else if str_eq(t, "HttpRequestBuilder") {
        "#"
    } else if str_eq(t, "InputStream") {
        "#"
    } else if str_eq(t, "Integer") {
        "#"
    } else if str_eq(t, "ItemStack") {
        "/globals/World/ItemStack"
    } else if str_eq(t, "ItemTask") {
        "/globals/Models/ItemTask"
    } else if str_eq(t, "JsonArray") {
        "#"
    } else if str_eq(t, "JsonBuilder") {
        "#"
    } else if str_eq(t, "JsonObject") {
        "#"
    } else if str_eq(t, "JsonSerializer") {
        "#"
    } else if str_eq(t, "Keybind") {
        "/globals/Keybinds/Keybind"
    } else if str_eq(t, "Matrix2") {
        "/globals/Matrices/Matrix2"
    } else if str_eq(t, "Matrix3") {
        "/globals/Matrices/Matrix3"
    } else if str_eq(t, "Matrix4") {
        "/globals/Matrices/Matrix4"
    } else if str_eq(t, "ModelPart") {
        "/globals/Models"
    } else if str_eq(t, "NameplateCustomization") {
        "/globals/Nameplate/NameplateCustomization"
    } else if str_eq(t, "NameplateCustomizationGroup") {
        "/globals/Nameplate/NameplateCustomizationGroup"
    } else if str_eq(t, "Number") {
        "#"
    } else if str_eq(t, "OutputStream") {
        "#"
    } else if str_eq(t, "Page") {
        "/globals/Action-Wheel/Page"
    } else if str_eq(t, "Particle") {
        "/globals/Particles/Particle"
    } else if str_eq(t, "ParticleAPI") {
        "/globals/Particles"
    } else if str_eq(t, "RenderTask") {
        "/globals/Models/RenderTask"
    } else if str_eq(t, "RendererAPI") {
        "/globals/Renderer"
    } else if str_eq(t, "Sound") {
        "/globals/Sounds"
    } else if str_eq(t, "SoundAPI") {
        "/globals/Sounds/Sound"
    } else if str_eq(t, "SpriteTask") {
        "/globals/Models/SpriteTask"
    } else if str_eq(t, "String") {
        "#"
    } else if str_eq(t, "Table") {
        "#"
    } else if str_eq(t, "TextTask") {
        "/globals/Models/TextTask"
    } else if str_eq(t, "Texture") {
        "/globals/Textures/Texture"
    } else if str_eq(t, "TextureAtlas") {
        "/globals/Textures/TextureAtlas"
    } else if str_eq(t, "VanillaPart") {
        "/globals/Vanilla-Model/VanillaPart"
    } else if str_eq(t, "Varargs") {
        "#"
    } else if str_eq(t, "Vector2") {
        "/globals/Vectors/Vector2"
    } else if str_eq(t, "Vector3") {
        "/globals/Vectors/Vector3"
    } else if str_eq(t, "Vector4") {
        "/globals/Vectors/Vector4"
    } else if str_eq(t, "Vertex") {
        "/globals/Models/Vertex"
    } else if str_eq(t, "ViewerAPI") {
        "/globals/Player/Viewer"
    } else if str_eq(t, "java.util.Objects") {
        "#"
    } else if str_eq(t, "java.util.Set") {
        "#"
    } else if str_eq(t, "net.minecraft.class_2561") {
        "#"
    } else if str_eq(t, "nil") {
        "#"
    } else if str_eq(t, "org.figuramc.figura.lua.ReadOnlyLuaTable") {
        "#"
    } else {
        "#"
    }
}

} // verus!

