//! Names of the shader uniforms through which the renderer passes the lights
//! and the texture units.

use crate::text::{decimal_digits, string_of, usize_text};
use vstd::prelude::*;

verus! {

/// The three light arrays of the lighting shaders.
#[derive(Clone, Copy, Debug, PartialEq, Eq, Structural)]
pub enum LightArray {
    Directional,
    Point,
    Spot,
}

/// The name of the uniform array of a kind of light.
pub open spec fn array_name(array: LightArray) -> Seq<char> {
    match array {
        LightArray::Directional => "dirLights"@,
        LightArray::Point => "pointLights"@,
        LightArray::Spot => "spotLights"@,
    }
}

/// The name of the uniform that holds how many lights of a kind there are.
pub open spec fn count_name(array: LightArray) -> Seq<char> {
    match array {
        LightArray::Directional => "numDirLights"@,
        LightArray::Point => "numPointLights"@,
        LightArray::Spot => "numSpotLights"@,
    }
}

/// The uniform holding how many lights of kind `array` are set.
pub fn light_count_uniform(array: LightArray) -> (name: &'static str)
    ensures
        name@ == count_name(array),
{
    match array {
        LightArray::Directional => "numDirLights",
        LightArray::Point => "numPointLights",
        LightArray::Spot => "numSpotLights",
    }
}

/// The uniform `array[index].field`, e.g. `pointLights[2].position`.
pub fn light_uniform(array: LightArray, index: usize, field: &str) -> (name: String)
    ensures
        name@ == array_name(array) + "["@ + decimal_digits(index as nat) + "]."@ + field@,
{
    let mut name = match array {
        LightArray::Directional => String::from_str("dirLights"),
        LightArray::Point => String::from_str("pointLights"),
        LightArray::Spot => String::from_str("spotLights"),
    };
    name.append("[");
    let digits = string_of(&usize_text(index));
    name.append(digits.as_str());
    name.append("].");
    name.append(field);
    name
}

/// The sampler uniform of texture unit `index`, e.g. `texture0`.
pub fn texture_uniform(index: usize) -> (name: String)
    ensures
        name@ == "texture"@ + decimal_digits(index as nat),
{
    let mut name = String::from_str("texture");
    let digits = string_of(&usize_text(index));
    name.append(digits.as_str());
    name
}

} // verus!
