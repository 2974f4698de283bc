pub mod tagged_ptr;
