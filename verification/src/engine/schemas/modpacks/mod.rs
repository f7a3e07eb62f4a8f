pub mod modrinth;
