/// Index arithmetic and small numeric helpers.
pub mod math_helper;

/// Checked entry points into the scalar type's own arithmetic.
pub(crate) mod float;

/// The OBJ text format of meshes.
pub mod obj;

/// Text comparison shared by the parameter and model code.
pub(crate) mod text;
