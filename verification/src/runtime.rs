pub mod google_protobuf;
