pub mod nodes_duties;
