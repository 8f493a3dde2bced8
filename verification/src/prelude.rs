//! Re-exports commonly needed traits
pub use crate::dwarf::BorrowableDwarf;
pub use crate::dwarf::DwarfContext;
pub use crate::index::DwarfLookups;
pub use crate::types::HasLocation;
pub use crate::types::HasMembers;
pub use crate::types::InnerType;
pub use crate::types::NamedType;
pub use crate::types::Tagged;
pub use crate::types::UnitHasMembers;
pub use crate::types::UnitInnerType;
pub use crate::types::UnitNamedType;
