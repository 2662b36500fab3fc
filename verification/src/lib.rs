//! Wire format, voxel parts and their bookkeeping for a multiplayer
//! voxel ship designer.

pub mod building;
pub mod channels;
pub mod codec;
pub mod colliders;
pub mod controls;
pub mod dispatch;
pub mod fixed_input;
pub mod grid;
pub mod ids;
pub mod materials;
pub mod mesh;
pub mod messages;
pub mod packet;
pub mod part;
pub mod predefined;
pub mod store;
pub mod transform;
