pub mod chunks;
pub mod error;
pub mod list;
pub mod memory;
pub mod multiplex;
pub mod stream;

pub use chunks::mem_list_from_chunks;
pub use error::IterManError;
pub use list::ListLike;
pub use memory::{MemoryList, MemoryListView};
pub use multiplex::{MemoryArrayList, MemoryArrayListView};
pub use stream::{BufferArrayList, BufferArrayListView, BufferList, BufferListView};
