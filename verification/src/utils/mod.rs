pub mod serializer;
