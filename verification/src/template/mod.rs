pub mod vite;
